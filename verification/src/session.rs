//! The session engine: the aggregate state machine owning the flow-control
//! windows, the link slot table, the pending-link index, the delivery ledger
//! and the transfer backlog.  Inbound performatives are dispatched through
//! `handle_frame`; every operation returns its effects (frames to post,
//! promises to fulfil) for the surrounding runtime to carry out, so the
//! engine never blocks and never performs I/O itself.

use vstd::prelude::*;

use crate::frames::{
    Attach, Disposition, DeliveryState, Flow, Frame, Message, OutFrame, Outcome,
    ReceiverSettleMode, Role, SenderSettleMode, Target, TerminusDurability,
    TerminusExpiryPolicy, Transfer, disposition_last, outcome_of,
};
use crate::ledger::{DeliveryLedger, UnsettledDelivery, in_range, out_of_range};
use crate::links::{
    LinkState, PendingLink, PendingLinks, SenderLinkState, contains_name, find_name,
    link_slab_get, link_slab_insert, link_slab_new, link_slab_set, slab_entries,
};

verus! {

/// A transfer fully formed except for delivery-id assignment, held until
/// outgoing credit exists: its link, the message, and the settlement promise
/// to register at send time.
#[derive(Debug)]
pub struct PendingTransfer {
    pub link_handle: u32,
    pub message: Message,
    pub promise: u64,
}

/// A settlement promise released by a disposition: which delivery, which
/// promise token, and the outcome to fulfil it with.
#[derive(Clone, Copy, Debug, PartialEq, Eq, Structural)]
pub struct Settlement {
    pub delivery_id: u32,
    pub promise: u64,
    pub outcome: Outcome,
}

/// The resolution of a pending link-open: the slot the session allocated
/// and the handle the peer allocated in its Attach.
#[derive(Clone, Copy, Debug, PartialEq, Eq, Structural)]
pub struct ResolvedLink {
    pub slot: usize,
    pub remote_handle: u32,
}

/// Everything one inbound frame caused: frames to post in order, at most one
/// resolved link-open, settlement promises to fulfil, and at most one link
/// to forward a Flow to.
#[derive(Debug)]
pub struct Effects {
    pub frames: Vec<OutFrame>,
    pub resolved_link: Option<ResolvedLink>,
    pub settlements: Vec<Settlement>,
    pub link_flow: Option<usize>,
}

/// The session engine's state, exclusively owned by the runtime driving it.
pub struct SessionInner {
    /// This session's local multiplexing identifier.
    pub id: u16,
    /// Identifier stamped on outbound frames so the peer routes them to its
    /// matching session.
    pub remote_channel_id: u16,
    /// Sender-side flow-control cursor: the next delivery id to assign.
    pub next_outgoing_id: u32,
    /// Remaining transfer credit granted by the peer.
    pub outgoing_window: u32,
    /// Receiver-side cursor.
    pub next_incoming_id: u32,
    /// Window advertised to the peer.
    pub incoming_window: u32,
    /// Ordered map, delivery id -> settlement promise.
    pub unsettled_deliveries: DeliveryLedger,
    /// Dense slot table of link states, keyed by locally allocated handle.
    pub links: slab::Slab<LinkState>,
    /// Link name -> slot, valid only while that link is Opening.
    pub pending_links: PendingLinks,
    /// Transfers blocked on flow-control credit, in submission order.
    pub pending_transfers: Vec<PendingTransfer>,
}

/// Relies on uuid::Uuid::new_v4 and Uuid::as_bytes: a freshly generated
/// version-4 UUID is 16 bytes.  The tag is random, so nothing more than its
/// length is promised.
#[verifier::external_body]
fn fresh_delivery_tag() -> (r: Vec<u8>)
    ensures
        r@.len() == 16,
{
    uuid::Uuid::new_v4().as_bytes().to_vec()
}

/// The fields every Transfer performative prepared for `pt` under delivery
/// id `id` carries.  The delivery tag is freshly generated (128 random
/// bits), so only its length is fixed.
pub open spec fn transfer_matches(t: Transfer, pt: PendingTransfer, id: u32) -> bool {
    &&& t.handle == pt.link_handle
    &&& t.delivery_id == Option::Some(id)
    &&& t.delivery_tag matches Option::Some(tag) && tag@.len() == 16
    &&& t.message_format == pt.message.message_format
    &&& t.settled == Option::Some(false)
    &&& !t.more
    &&& !t.resume
    &&& !t.aborted
    &&& !t.batchable
}

/// An outbound Transfer frame for `pt` under delivery id `id`: the
/// performative above, stamped with the remote channel, carrying the
/// message's serialized bytes.
pub open spec fn transfer_frame_matches(of: OutFrame, channel: u16, pt: PendingTransfer, id: u32) -> bool {
    &&& of.channel == channel
    &&& of.frame matches Frame::Transfer(t) && transfer_matches(t, pt, id)
    &&& of.payload@ == pt.message.body@
}

/// The outbound Attach frame `open_sender_link` posts: sender role, the
/// allocated slot as local handle, and a target terminus at `address`.
pub open spec fn attach_frame_matches(of: OutFrame, channel: u16, address: String, name: String, slot: usize) -> bool {
    &&& of.channel == channel
    &&& of.frame matches Frame::Attach(a) && {
        &&& a.name@ == name@
        &&& a.handle == slot as u32
        &&& a.role == Role::Sender
        &&& a.snd_settle_mode == SenderSettleMode::Mixed
        &&& a.rcv_settle_mode == ReceiverSettleMode::First
        &&& a.target matches Option::Some(t) && {
            &&& t.address matches Option::Some(ad) && ad@ == address@
            &&& t.durability == TerminusDurability::NotDurable
            &&& t.expiry_policy == TerminusExpiryPolicy::SessionEnd
            &&& t.timeout == 0
            &&& !t.dynamic
        }
    }
    &&& of.payload@ == Seq::<u8>::empty()
}

/// A bare reflective session-level Flow frame advertising `s`'s current
/// windows, with the handle-specific and drain/echo fields empty.
pub open spec fn session_flow_frame(of: OutFrame, s: SessionInner) -> bool {
    &&& of.channel == s.remote_channel_id
    &&& of.frame matches Frame::Flow(f) && {
        &&& f.next_incoming_id == Option::Some(s.next_incoming_id)
        &&& f.incoming_window == s.incoming_window
        &&& f.next_outgoing_id == s.next_outgoing_id
        &&& f.outgoing_window == s.outgoing_window
        &&& f.handle is None
        &&& f.delivery_count is None
        &&& f.link_credit is None
        &&& f.available is None
        &&& !f.drain
        &&& !f.echo
    }
    &&& of.payload@ == Seq::<u8>::empty()
}

/// The peer's stated next-incoming id, defaulting to 0 when absent.
pub open spec fn flow_nii(f: Flow) -> int {
    match f.next_incoming_id {
        Option::Some(v) => v as int,
        Option::None => 0,
    }
}

/// The outgoing window the standard AMQP session credit formula yields for
/// `f`: the peer's absorption capacity minus our own send cursor.
pub open spec fn flow_window(pre: SessionInner, f: Flow) -> int {
    flow_nii(f) + f.incoming_window - pre.next_outgoing_id
}

/// Machine limit on the credit formula: the recomputed window must fit u32.
pub open spec fn flow_ok(pre: SessionInner, f: Flow) -> bool {
    &&& flow_nii(f) + f.incoming_window <= u32::MAX
    &&& pre.next_outgoing_id <= flow_nii(f) + f.incoming_window
}

/// How many backlog transfers a Flow drains: the whole backlog, unless the
/// recomputed window runs out first.
pub open spec fn drain_count(pre: SessionInner, f: Flow) -> int {
    let w = flow_window(pre, f);
    if w <= pre.pending_transfers@.len() {
        w
    } else {
        pre.pending_transfers@.len() as int
    }
}

/// The ledger entries a drain of `i` backlog transfers registers:
/// consecutive delivery ids from `pre`'s cursor, each carrying the queued
/// transfer's promise.
pub open spec fn drained_ledger(pre: SessionInner, i: int) -> Seq<UnsettledDelivery> {
    Seq::new(i as nat, |j: int| UnsettledDelivery {
        id: (pre.next_outgoing_id + j) as u32,
        promise: pre.pending_transfers@[j].promise,
    })
}

/// Whether a Flow leads to a reflective Flow being sent back: echo is
/// requested and no known link slot is addressed.
pub open spec fn flow_echoes(pre: SessionInner, f: Flow) -> bool {
    f.echo && match f.handle {
        Option::Some(h) => !slab_entries(pre.links).dom().contains(h as nat),
        Option::None => true,
    }
}

/// The link slot a Flow is forwarded to for per-link credit bookkeeping:
/// the addressed slot, when it holds an established link.
pub open spec fn flow_forwards(pre: SessionInner, f: Flow) -> Option<usize> {
    match f.handle {
        Option::Some(h) => if slab_entries(pre.links).dom().contains(h as nat)
            && slab_entries(pre.links)[h as nat] is Established {
            Option::Some(h as usize)
        } else {
            Option::None
        },
        Option::None => Option::None,
    }
}

/// The settlement fulfilling `e`'s promise under disposition `d`.
pub open spec fn settlement_of(e: UnsettledDelivery, d: Disposition) -> Settlement {
    Settlement { delivery_id: e.id, promise: e.promise, outcome: outcome_of(d.state) }
}

/// The ledger entries a settled disposition acts on: those in its inclusive
/// delivery-id range, in ascending id order.
pub open spec fn settled_entries(pre: SessionInner, d: Disposition) -> Seq<UnsettledDelivery> {
    pre.unsettled_deliveries@.filter(in_range(d.first, disposition_last(d)))
}

/// Nothing observable changed between `pre` and `post`.
pub open spec fn unchanged_step(pre: SessionInner, post: SessionInner) -> bool {
    &&& post.id == pre.id
    &&& post.remote_channel_id == pre.remote_channel_id
    &&& post.next_outgoing_id == pre.next_outgoing_id
    &&& post.outgoing_window == pre.outgoing_window
    &&& post.next_incoming_id == pre.next_incoming_id
    &&& post.incoming_window == pre.incoming_window
    &&& post.unsettled_deliveries@ == pre.unsettled_deliveries@
    &&& slab_entries(post.links) == slab_entries(pre.links)
    &&& post.pending_links@ == pre.pending_links@
    &&& post.pending_transfers@ == pre.pending_transfers@
}

/// What `open_sender_link` does: a fresh slot enters the table in Opening
/// state, the name is registered as pending for that slot, and the returned
/// Attach frame carries the slot as local handle.
pub open spec fn open_step(pre: SessionInner, post: SessionInner, address: String, name: String, slot: usize, frame: OutFrame) -> bool {
    &&& !slab_entries(pre.links).dom().contains(slot as nat)
    &&& slab_entries(post.links) == slab_entries(pre.links).insert(slot as nat, LinkState::Opening)
    &&& post.pending_links@ == pre.pending_links@.push(PendingLink { name, slot })
    &&& attach_frame_matches(frame, pre.remote_channel_id, address, name, slot)
    &&& post.id == pre.id
    &&& post.remote_channel_id == pre.remote_channel_id
    &&& post.next_outgoing_id == pre.next_outgoing_id
    &&& post.outgoing_window == pre.outgoing_window
    &&& post.next_incoming_id == pre.next_incoming_id
    &&& post.incoming_window == pre.incoming_window
    &&& post.unsettled_deliveries@ == pre.unsettled_deliveries@
    &&& post.pending_transfers@ == pre.pending_transfers@
}

/// What an inbound Attach does: a matching pending name is removed; if its
/// slot is still Opening the slot becomes Established around the peer's
/// handle and the link-open resolves; otherwise, and for a name never
/// requested, nothing else changes and nothing resolves.
pub open spec fn attach_step(pre: SessionInner, post: SessionInner, attach: Attach, r: Option<ResolvedLink>) -> bool {
    &&& post.id == pre.id
    &&& post.remote_channel_id == pre.remote_channel_id
    &&& post.next_outgoing_id == pre.next_outgoing_id
    &&& post.outgoing_window == pre.outgoing_window
    &&& post.next_incoming_id == pre.next_incoming_id
    &&& post.incoming_window == pre.incoming_window
    &&& post.unsettled_deliveries@ == pre.unsettled_deliveries@
    &&& post.pending_transfers@ == pre.pending_transfers@
    &&& {
        let i = find_name(pre.pending_links@, attach.name@);
        if i < 0 {
            &&& post.pending_links@ == pre.pending_links@
            &&& slab_entries(post.links) == slab_entries(pre.links)
            &&& r is None
        } else {
            let slot = pre.pending_links@[i].slot;
            &&& post.pending_links@ == pre.pending_links@.remove(i)
            &&& if slab_entries(pre.links).dom().contains(slot as nat)
                && slab_entries(pre.links)[slot as nat] is Opening {
                &&& slab_entries(post.links) == slab_entries(pre.links).insert(
                    slot as nat,
                    LinkState::Established(SenderLinkState { remote_handle: attach.handle }),
                )
                &&& r == Option::Some(ResolvedLink { slot, remote_handle: attach.handle })
            } else {
                &&& slab_entries(post.links) == slab_entries(pre.links)
                &&& r is None
            }
        }
    }
}

/// What a settled Disposition does: every tracked delivery id in the range
/// leaves the ledger and its promise is fulfilled with the disposition's
/// outcome, in ascending id order; ids outside the range are untouched.  A
/// Received state is not yet actionable and changes nothing.
pub open spec fn disposition_step(pre: SessionInner, post: SessionInner, d: Disposition, settlements: Seq<Settlement>) -> bool {
    &&& post.id == pre.id
    &&& post.remote_channel_id == pre.remote_channel_id
    &&& post.next_outgoing_id == pre.next_outgoing_id
    &&& post.outgoing_window == pre.outgoing_window
    &&& post.next_incoming_id == pre.next_incoming_id
    &&& post.incoming_window == pre.incoming_window
    &&& slab_entries(post.links) == slab_entries(pre.links)
    &&& post.pending_links@ == pre.pending_links@
    &&& post.pending_transfers@ == pre.pending_transfers@
    &&& if d.state == Option::Some(DeliveryState::Received) {
        &&& post.unsettled_deliveries@ == pre.unsettled_deliveries@
        &&& settlements == Seq::<Settlement>::empty()
    } else {
        &&& post.unsettled_deliveries@ == pre.unsettled_deliveries@.filter(
            out_of_range(d.first, disposition_last(d)),
        )
        &&& settlements.len() == settled_entries(pre, d).len()
        &&& forall|j: int| 0 <= j < settlements.len()
            ==> settlements[j] == settlement_of(settled_entries(pre, d)[j], d)
    }
}

/// What a Flow does: the outgoing window is recomputed by the credit
/// formula, the backlog drains in submission order while credit lasts (each
/// drained transfer consuming one credit, taking the next delivery id and
/// entering the ledger), the addressed established link (if any) is handed
/// the Flow, and otherwise a reflective Flow answers an echo request.
pub open spec fn flow_step(pre: SessionInner, post: SessionInner, f: Flow, frames: Seq<OutFrame>, link_flow: Option<usize>) -> bool {
    let k = drain_count(pre, f);
    &&& post.id == pre.id
    &&& post.remote_channel_id == pre.remote_channel_id
    &&& post.next_incoming_id == pre.next_incoming_id
    &&& post.incoming_window == pre.incoming_window
    &&& slab_entries(post.links) == slab_entries(pre.links)
    &&& post.pending_links@ == pre.pending_links@
    &&& post.next_outgoing_id == pre.next_outgoing_id + k
    &&& post.outgoing_window == flow_window(pre, f) - k
    &&& post.pending_transfers@ == pre.pending_transfers@.skip(k)
    &&& post.unsettled_deliveries@ == pre.unsettled_deliveries@ + drained_ledger(pre, k)
    &&& frames.len() == k + if flow_echoes(pre, f) { 1int } else { 0int }
    &&& forall|j: int| 0 <= j < k ==> transfer_frame_matches(
        frames[j],
        pre.remote_channel_id,
        pre.pending_transfers@[j],
        (pre.next_outgoing_id + j) as u32,
    )
    &&& flow_echoes(pre, f) ==> session_flow_frame(frames[k], post)
    &&& link_flow == flow_forwards(pre, f)
}

/// What queuing a transfer under backpressure does: the backlog grows by
/// the fully prepared transfer and nothing else changes — no frame is sent,
/// no delivery id is assigned, no promise is registered or fulfilled.
pub open spec fn queued_step(pre: SessionInner, post: SessionInner, link_handle: u32, message: Message, promise: u64) -> bool {
    &&& pre.outgoing_window == 0
    &&& post.id == pre.id
    &&& post.remote_channel_id == pre.remote_channel_id
    &&& post.next_outgoing_id == pre.next_outgoing_id
    &&& post.outgoing_window == pre.outgoing_window
    &&& post.next_incoming_id == pre.next_incoming_id
    &&& post.incoming_window == pre.incoming_window
    &&& post.unsettled_deliveries@ == pre.unsettled_deliveries@
    &&& slab_entries(post.links) == slab_entries(pre.links)
    &&& post.pending_links@ == pre.pending_links@
    &&& post.pending_transfers@ == pre.pending_transfers@.push(PendingTransfer { link_handle, message, promise })
}

/// One unit of outgoing credit is consumed and the delivery-id cursor
/// advances: the flow-control heart of every immediate send.
pub open spec fn credit_consumed(pre: SessionInner, post: SessionInner, id: u32) -> bool {
    &&& pre.outgoing_window > 0
    &&& id == pre.next_outgoing_id
    &&& post.next_outgoing_id == pre.next_outgoing_id + 1
    &&& post.outgoing_window == pre.outgoing_window - 1
}

/// What an immediate send does: one credit is consumed, the delivery id is
/// assigned from the cursor, the promise enters the ledger under that id
/// before the frame is handed out, and the frame carries the message.
pub open spec fn sent_step(pre: SessionInner, post: SessionInner, link_handle: u32, message: Message, promise: u64, of: OutFrame) -> bool {
    &&& credit_consumed(pre, post, pre.next_outgoing_id)
    &&& post.id == pre.id
    &&& post.remote_channel_id == pre.remote_channel_id
    &&& post.next_incoming_id == pre.next_incoming_id
    &&& post.incoming_window == pre.incoming_window
    &&& post.unsettled_deliveries@ == pre.unsettled_deliveries@.push(
        UnsettledDelivery { id: pre.next_outgoing_id, promise },
    )
    &&& slab_entries(post.links) == slab_entries(pre.links)
    &&& post.pending_links@ == pre.pending_links@
    &&& post.pending_transfers@ == pre.pending_transfers@
    &&& transfer_frame_matches(
        of,
        pre.remote_channel_id,
        PendingTransfer { link_handle, message, promise },
        pre.next_outgoing_id,
    )
}

/// Per-variant precondition of `handle_frame`: an unsettled Disposition is
/// an unsupported protocol feature treated as a precondition, and a Flow's
/// credit formula must fit the machine's window type.
pub open spec fn handle_ok(pre: SessionInner, frame: Frame) -> bool {
    match frame {
        Frame::Disposition(d) => d.settled,
        Frame::Flow(f) => flow_ok(pre, f),
        _ => true,
    }
}

impl SessionInner {
    /// Well-formed: the ledger is sorted with every id below the cursor, and
    /// pending link names are unique.
    pub open spec fn wf(self) -> bool {
        &&& self.unsettled_deliveries.wf()
        &&& self.unsettled_deliveries.all_below(self.next_outgoing_id)
        &&& self.pending_links.wf()
    }

    /// A fresh session on channel `id`, paired with the peer's channel
    /// `remote_channel_id`.  The delivery-id cursor starts at 1.
    pub fn new(id: u16, remote_channel_id: u16, outgoing_window: u32, next_incoming_id: u32, incoming_window: u32) -> (s: SessionInner)
        ensures
            s.wf(),
            s.id == id,
            s.remote_channel_id == remote_channel_id,
            s.next_outgoing_id == 1,
            s.outgoing_window == outgoing_window,
            s.next_incoming_id == next_incoming_id,
            s.incoming_window == incoming_window,
            s.unsettled_deliveries@ == Seq::<UnsettledDelivery>::empty(),
            slab_entries(s.links) == Map::<nat, LinkState>::empty(),
            s.pending_links@ == Seq::<PendingLink>::empty(),
            s.pending_transfers@ == Seq::<PendingTransfer>::empty(),
    {
        SessionInner {
            id,
            remote_channel_id,
            next_outgoing_id: 1,
            outgoing_window,
            next_incoming_id,
            incoming_window,
            unsettled_deliveries: DeliveryLedger::new(),
            links: link_slab_new(),
            pending_links: PendingLinks::new(),
            pending_transfers: Vec::new(),
        }
    }

    /// The sole inbound entry point: dispatch one performative arriving on
    /// this channel.  Attach completes a pending link, Disposition settles
    /// deliveries, Flow replenishes credit and drains the backlog; Detach is
    /// not yet acted upon and anything else is ignored.
    pub fn handle_frame(&mut self, frame: Frame) -> (e: Effects)
        requires
            old(self).wf(),
            handle_ok(*old(self), frame),
        ensures
            final(self).wf(),
            match frame {
                Frame::Attach(a) => {
                    &&& attach_step(*old(self), *final(self), a, e.resolved_link)
                    &&& e.frames@ == Seq::<OutFrame>::empty()
                    &&& e.settlements@ == Seq::<Settlement>::empty()
                    &&& e.link_flow is None
                },
                Frame::Disposition(d) => {
                    &&& disposition_step(*old(self), *final(self), d, e.settlements@)
                    &&& e.frames@ == Seq::<OutFrame>::empty()
                    &&& e.resolved_link is None
                    &&& e.link_flow is None
                },
                Frame::Flow(f) => {
                    &&& flow_step(*old(self), *final(self), f, e.frames@, e.link_flow)
                    &&& e.resolved_link is None
                    &&& e.settlements@ == Seq::<Settlement>::empty()
                },
                _ => {
                    &&& unchanged_step(*old(self), *final(self))
                    &&& e.frames@ == Seq::<OutFrame>::empty()
                    &&& e.resolved_link is None
                    &&& e.settlements@ == Seq::<Settlement>::empty()
                    &&& e.link_flow is None
                },
            },
    {
        match frame {
            Frame::Attach(a) => {
                let resolved = self.complete_link_creation(&a);
                Effects {
                    frames: Vec::new(),
                    resolved_link: resolved,
                    settlements: Vec::new(),
                    link_flow: Option::None,
                }
            }
            Frame::Disposition(d) => {
                let settlements = self.settle_deliveries(&d);
                Effects {
                    frames: Vec::new(),
                    resolved_link: Option::None,
                    settlements,
                    link_flow: Option::None,
                }
            }
            Frame::Flow(f) => {
                let r = self.apply_flow(&f);
                Effects {
                    frames: r.0,
                    resolved_link: Option::None,
                    settlements: Vec::new(),
                    link_flow: r.1,
                }
            }
            _ => Effects {
                frames: Vec::new(),
                resolved_link: Option::None,
                settlements: Vec::new(),
                link_flow: Option::None,
            },
        }
    }

    /// Request a new outgoing link: allocate a slot, record it Opening,
    /// register the pending name, and hand back the slot (the correlation
    /// key for the caller's completion promise) with the Attach frame to
    /// post.  Duplicate in-flight names are not admitted.
    pub fn open_sender_link(&mut self, address: String, name: String) -> (r: (usize, OutFrame))
        requires
            old(self).wf(),
            !contains_name(old(self).pending_links@, name@),
        ensures
            final(self).wf(),
            open_step(*old(self), *final(self), address, name, r.0, r.1),
    {
        let slot = link_slab_insert(&mut self.links, LinkState::Opening);
        let frame_name = name.clone();
        self.pending_links.insert(name, slot);
        let target = Target {
            address: Option::Some(address),
            durability: TerminusDurability::NotDurable,
            expiry_policy: TerminusExpiryPolicy::SessionEnd,
            timeout: 0,
            dynamic: false,
        };
        let attach = Attach {
            name: frame_name,
            handle: #[verifier::truncate] (slot as u32),
            role: Role::Sender,
            snd_settle_mode: SenderSettleMode::Mixed,
            rcv_settle_mode: ReceiverSettleMode::First,
            target: Option::Some(target),
        };
        let out = OutFrame {
            channel: self.remote_channel_id,
            frame: Frame::Attach(attach),
            payload: Vec::new(),
        };
        (slot, out)
    }

    /// Complete pending link creation on the peer's Attach, as
    /// `attach_step` describes.  An Attach whose name was never requested,
    /// or whose slot already left Opening, affects no existing link slot.
    pub fn complete_link_creation(&mut self, attach: &Attach) -> (r: Option<ResolvedLink>)
        requires
            old(self).wf(),
        ensures
            final(self).wf(),
            attach_step(*old(self), *final(self), *attach, r),
    {
        let taken = self.pending_links.take(&attach.name);
        match taken {
            Option::Some(slot) => {
                match link_slab_get(&self.links, slot) {
                    Option::Some(state) => {
                        if state.is_opening() {
                            link_slab_set(
                                &mut self.links,
                                slot,
                                LinkState::Established(SenderLinkState { remote_handle: attach.handle }),
                            );
                            Option::Some(ResolvedLink { slot, remote_handle: attach.handle })
                        } else {
                            Option::None
                        }
                    }
                    Option::None => Option::None,
                }
            }
            Option::None => Option::None,
        }
    }

    /// Settle deliveries for a settled disposition, as `disposition_step`
    /// describes: collect the tracked ids in the inclusive range, remove
    /// each exactly once, and return the promises to fulfil, in ascending id
    /// order.  Unsettled dispositions are a precondition violation.
    pub fn settle_deliveries(&mut self, disposition: &Disposition) -> (settlements: Vec<Settlement>)
        requires
            old(self).wf(),
            disposition.settled,
        ensures
            final(self).wf(),
            disposition_step(*old(self), *final(self), *disposition, settlements@),
    {
        match disposition.state {
            Option::Some(DeliveryState::Received) => {
                return Vec::new();
            }
            _ => {}
        }
        let outcome = match disposition.state {
            Option::Some(DeliveryState::Rejected) => Outcome::Rejected,
            Option::Some(DeliveryState::Released) => Outcome::Released,
            Option::Some(DeliveryState::Modified) => Outcome::Modified,
            _ => Outcome::Accepted,
        };
        let last = match disposition.last {
            Option::Some(l) => l,
            Option::None => disposition.first,
        };
        let removed = self.unsettled_deliveries.settle_range(disposition.first, last);
        proof {
            let pre = old(self).unsettled_deliveries@;
            let bound = self.next_outgoing_id;
            assert forall|a: int| 0 <= a < self.unsettled_deliveries@.len()
                implies self.unsettled_deliveries@[a].id < bound by {
                assert(pre.contains(self.unsettled_deliveries@[a]));
                let j = choose|j: int| 0 <= j < pre.len() && pre[j] == self.unsettled_deliveries@[a];
                assert(pre[j].id < bound);
            }
        }
        let n = removed.len();
        let mut settlements: Vec<Settlement> = Vec::new();
        let mut i: usize = 0;
        while i < n
            invariant
                i <= n,
                n == removed.len(),
                outcome == outcome_of(disposition.state),
                settlements@.len() == i,
                forall|j: int| 0 <= j < i
                    ==> settlements@[j] == (Settlement {
                        delivery_id: removed@[j].id,
                        promise: removed@[j].promise,
                        outcome: outcome_of(disposition.state),
                    }),
            decreases n - i,
        {
            let e = removed[i];
            settlements.push(Settlement { delivery_id: e.id, promise: e.promise, outcome });
            i = i + 1;
        }
        settlements
    }

    /// Apply a Flow, as `flow_step` describes: recompute the outgoing
    /// window by the credit formula, drain the backlog in FIFO order while
    /// credit lasts, then forward the Flow to an addressed established link
    /// or answer an echo request with a reflective Flow.
    pub fn apply_flow(&mut self, flow: &Flow) -> (r: (Vec<OutFrame>, Option<usize>))
        requires
            old(self).wf(),
            flow_ok(*old(self), *flow),
        ensures
            final(self).wf(),
            flow_step(*old(self), *final(self), *flow, r.0@, r.1),
    {
        let nii = match flow.next_incoming_id {
            Option::Some(v) => v,
            Option::None => 0,
        };
        self.outgoing_window = nii + flow.incoming_window - self.next_outgoing_id;
        let mut frames: Vec<OutFrame> = Vec::new();
        let ghost k = drain_count(*old(self), *flow);
        while self.outgoing_window > 0 && self.pending_transfers.len() > 0
            invariant
                self.wf(),
                flow_ok(*old(self), *flow),
                ({
                    let i = frames@.len() as int;
                    &&& 0 <= i <= k
                    &&& k == drain_count(*old(self), *flow)
                    &&& self.id == old(self).id
                    &&& self.remote_channel_id == old(self).remote_channel_id
                    &&& self.next_incoming_id == old(self).next_incoming_id
                    &&& self.incoming_window == old(self).incoming_window
                    &&& slab_entries(self.links) == slab_entries(old(self).links)
                    &&& self.pending_links@ == old(self).pending_links@
                    &&& self.next_outgoing_id == old(self).next_outgoing_id + i
                    &&& self.outgoing_window == flow_window(*old(self), *flow) - i
                    &&& self.pending_transfers@ == old(self).pending_transfers@.skip(i)
                    &&& self.unsettled_deliveries@ == old(self).unsettled_deliveries@
                        + drained_ledger(*old(self), i)
                    &&& forall|j: int| 0 <= j < i ==> transfer_frame_matches(
                        frames@[j],
                        old(self).remote_channel_id,
                        old(self).pending_transfers@[j],
                        (old(self).next_outgoing_id + j) as u32,
                    )
                }),
            decreases self.outgoing_window,
        {
            let ghost i = frames@.len() as int;
            let t = self.pending_transfers.remove(0);
            proof {
                assert(t == old(self).pending_transfers@[i]);
                assert(self.pending_transfers@ =~= old(self).pending_transfers@.skip(i + 1));
                assert(i < k);
            }
            let frame_body = self.prepare_transfer(t.link_handle, t.message, t.promise);
            let out = OutFrame {
                channel: self.remote_channel_id,
                frame: frame_body.0,
                payload: frame_body.1,
            };
            frames.push(out);
            proof {
                assert(self.unsettled_deliveries@ =~= old(self).unsettled_deliveries@
                    + drained_ledger(*old(self), i + 1));
            }
        }
        proof {
            let i = frames@.len() as int;
            assert(self.pending_transfers@.len() == old(self).pending_transfers@.len() - i);
            if self.outgoing_window == 0 {
                assert(i == k);
            } else {
                assert(self.pending_transfers@.len() == 0);
                assert(i == k);
            }
        }
        let link_flow: Option<usize>;
        match flow.handle {
            Option::Some(h) => {
                match link_slab_get(&self.links, h as usize) {
                    Option::Some(state) => {
                        match state {
                            LinkState::Established(_) => {
                                link_flow = Option::Some(h as usize);
                            }
                            _ => {
                                link_flow = Option::None;
                            }
                        }
                    }
                    Option::None => {
                        if flow.echo {
                            frames.push(self.send_flow());
                        }
                        link_flow = Option::None;
                    }
                }
            }
            Option::None => {
                if flow.echo {
                    frames.push(self.send_flow());
                }
                link_flow = Option::None;
            }
        }
        (frames, link_flow)
    }

    /// The bare reflective session-level Flow advertising the current
    /// windows.
    pub fn send_flow(&self) -> (r: OutFrame)
        ensures
            session_flow_frame(r, *self),
    {
        OutFrame {
            channel: self.remote_channel_id,
            frame: Frame::Flow(Flow {
                next_incoming_id: Option::Some(self.next_incoming_id),
                incoming_window: self.incoming_window,
                next_outgoing_id: self.next_outgoing_id,
                outgoing_window: self.outgoing_window,
                handle: Option::None,
                delivery_count: Option::None,
                link_credit: Option::None,
                available: Option::None,
                drain: false,
                echo: false,
            }),
            payload: Vec::new(),
        }
    }

    /// Submit a transfer: under backpressure (window 0) it is queued and
    /// nothing is sent; otherwise it is prepared and the frame to post is
    /// returned.
    pub fn send_transfer(&mut self, link_handle: u32, message: Message, promise: u64) -> (r: Option<OutFrame>)
        requires
            old(self).wf(),
            old(self).outgoing_window > 0 ==> old(self).next_outgoing_id < u32::MAX,
        ensures
            final(self).wf(),
            old(self).outgoing_window == 0 ==> r is None
                && queued_step(*old(self), *final(self), link_handle, message, promise),
            old(self).outgoing_window > 0 ==> (r matches Option::Some(of)
                && sent_step(*old(self), *final(self), link_handle, message, promise, of)),
    {
        if self.outgoing_window == 0 {
            self.pending_transfers.push(PendingTransfer { link_handle, message, promise });
            return Option::None;
        }
        let frame_body = self.prepare_transfer(link_handle, message, promise);
        Option::Some(OutFrame {
            channel: self.remote_channel_id,
            frame: frame_body.0,
            payload: frame_body.1,
        })
    }

    /// Submit a transfer through the connection path.  Both submission
    /// paths post through the same connection collaborator, so this is the
    /// same operation as `send_transfer`, kept as its own entry point.
    pub fn send_transfer_conn(&mut self, link_handle: u32, message: Message, promise: u64) -> (r: Option<OutFrame>)
        requires
            old(self).wf(),
            old(self).outgoing_window > 0 ==> old(self).next_outgoing_id < u32::MAX,
        ensures
            final(self).wf(),
            old(self).outgoing_window == 0 ==> r is None
                && queued_step(*old(self), *final(self), link_handle, message, promise),
            old(self).outgoing_window > 0 ==> (r matches Option::Some(of)
                && sent_step(*old(self), *final(self), link_handle, message, promise, of)),
    {
        self.send_transfer(link_handle, message, promise)
    }

    /// Prepare an immediate send: consume one credit, assign the next
    /// delivery id, generate a fresh random delivery tag, register the
    /// promise in the ledger under the id — before the frame is handed to
    /// the transport — and return the Transfer performative with the
    /// serialized message body.
    pub fn prepare_transfer(&mut self, link_handle: u32, message: Message, promise: u64) -> (r: (Frame, Vec<u8>))
        requires
            old(self).wf(),
            old(self).outgoing_window > 0,
            old(self).next_outgoing_id < u32::MAX,
        ensures
            final(self).wf(),
            credit_consumed(*old(self), *final(self), old(self).next_outgoing_id),
            final(self).id == old(self).id,
            final(self).remote_channel_id == old(self).remote_channel_id,
            final(self).next_incoming_id == old(self).next_incoming_id,
            final(self).incoming_window == old(self).incoming_window,
            final(self).unsettled_deliveries@ == old(self).unsettled_deliveries@.push(
                UnsettledDelivery { id: old(self).next_outgoing_id, promise },
            ),
            slab_entries(final(self).links) == slab_entries(old(self).links),
            final(self).pending_links@ == old(self).pending_links@,
            final(self).pending_transfers@ == old(self).pending_transfers@,
            r.0 matches Frame::Transfer(t) && transfer_matches(
                t,
                PendingTransfer { link_handle, message, promise },
                old(self).next_outgoing_id,
            ),
            r.1@ == message.body@,
    {
        self.outgoing_window = self.outgoing_window - 1;
        let delivery_id = self.next_outgoing_id;
        self.next_outgoing_id = self.next_outgoing_id + 1;
        let delivery_tag = fresh_delivery_tag();
        let message_format = message.message_format;
        let transfer = Transfer {
            handle: link_handle,
            delivery_id: Option::Some(delivery_id),
            delivery_tag: Option::Some(delivery_tag),
            message_format,
            settled: Option::Some(false),
            more: false,
            resume: false,
            aborted: false,
            batchable: false,
        };
        self.unsettled_deliveries.insert(delivery_id, promise);
        (Frame::Transfer(transfer), message.serialize())
    }
}

} // verus!
