//! The session engine's laws, proved once and for all over the step
//! relations its contracts are written in: link attachment resolves exactly
//! the open that requested it, delivery ids never repeat, the backlog
//! drains in submission order, and range settlement is exact and
//! idempotent.

use vstd::prelude::*;

use crate::frames::{Attach, DeliveryState, Disposition, Flow, Message, OutFrame, disposition_last};
use crate::ledger::{
    UnsettledDelivery, in_range, lemma_filter_all, lemma_filter_none, lemma_filter_sorted,
    out_of_range, tracks,
};
use crate::links::{
    LinkState, PendingLink, SenderLinkState, contains_name, lemma_find_name_at,
    lemma_find_name_props, slab_entries,
};
use crate::session::{
    PendingTransfer, ResolvedLink, SessionInner, Settlement, attach_step, credit_consumed,
    disposition_step, drain_count, flow_step, open_step, queued_step, settled_entries,
    settlement_of, transfer_frame_matches,
};

verus! {

/// Opening a sender link and then receiving the peer's Attach bearing the
/// same name resolves the open — exactly then — to a link on the very slot
/// the session allocated, established around the peer's handle, and the
/// pending entry for that name is gone.
pub proof fn lemma_open_then_attach_resolves(
    pre: SessionInner,
    mid: SessionInner,
    post: SessionInner,
    address: String,
    name: String,
    slot: usize,
    open_frame: OutFrame,
    attach: Attach,
    r: Option<ResolvedLink>,
)
    requires
        pre.wf(),
        !contains_name(pre.pending_links@, name@),
        open_step(pre, mid, address, name, slot, open_frame),
        attach_step(mid, post, attach, r),
        attach.name@ == name@,
    ensures
        r == Option::Some(ResolvedLink { slot, remote_handle: attach.handle }),
        !contains_name(post.pending_links@, name@),
        slab_entries(post.links).dom().contains(slot as nat),
        slab_entries(post.links)[slot as nat] == LinkState::Established(
            SenderLinkState { remote_handle: attach.handle },
        ),
{
    let q = pre.pending_links@;
    let entry = PendingLink { name, slot };
    let n = q.len() as int;
    lemma_find_name_props(q, name@);
    assert(mid.pending_links@[n] == entry);
    assert(forall|j: int| 0 <= j < n ==> mid.pending_links@[j] == q[j]);
    lemma_find_name_at(mid.pending_links@, name@, n);
    assert(mid.pending_links@[n].slot == slot);
    assert(slab_entries(mid.links)[slot as nat] == LinkState::Opening);
    assert(post.pending_links@ == mid.pending_links@.remove(n));
    assert(post.pending_links@ =~= q);
}

/// An Attach whose name was never requested resolves nothing: it affects no
/// link slot, no pending entry, no ledger entry and no queued transfer.
pub proof fn lemma_unsolicited_attach_ignored(
    pre: SessionInner,
    post: SessionInner,
    attach: Attach,
    r: Option<ResolvedLink>,
)
    requires
        attach_step(pre, post, attach, r),
        !contains_name(pre.pending_links@, attach.name@),
    ensures
        r is None,
        slab_entries(post.links) == slab_entries(pre.links),
        post.pending_links@ == pre.pending_links@,
        post.unsettled_deliveries@ == pre.unsettled_deliveries@,
        post.pending_transfers@ == pre.pending_transfers@,
{
}

/// Along any run of immediate sends, each send consumes exactly one unit of
/// outgoing credit, the cursor advances by exactly one, and the assigned
/// delivery ids strictly increase — no delivery id is ever assigned twice.
pub proof fn lemma_send_ids_strictly_increase(states: Seq<SessionInner>, ids: Seq<u32>)
    requires
        states.len() == ids.len() + 1,
        forall|i: int| 0 <= i < ids.len()
            ==> credit_consumed(#[trigger] states[i], states[i + 1], ids[i]),
    ensures
        forall|i: int| 0 <= i < ids.len() ==> (#[trigger] states[i]).outgoing_window > 0
            && states[i + 1].outgoing_window == states[i].outgoing_window - 1,
        forall|i: int, j: int| 0 <= i < j < ids.len() ==> ids[i] < ids[j],
{
    assert forall|i: int, j: int| 0 <= i < j < ids.len() implies ids[i] < ids[j] by {
        lemma_cursor_advances(states, ids, i, j);
        assert(credit_consumed(states[i], states[i + 1], ids[i]));
        assert(credit_consumed(states[j], states[j + 1], ids[j]));
    }
}

/// The delivery-id cursor advances by exactly one per send.
proof fn lemma_cursor_advances(states: Seq<SessionInner>, ids: Seq<u32>, i: int, j: int)
    requires
        states.len() == ids.len() + 1,
        forall|a: int| 0 <= a < ids.len()
            ==> credit_consumed(#[trigger] states[a], states[a + 1], ids[a]),
        0 <= i <= j < states.len(),
    ensures
        states[j].next_outgoing_id - states[i].next_outgoing_id == j - i,
    decreases j - i,
{
    if i < j {
        lemma_cursor_advances(states, ids, i, j - 1);
        assert(credit_consumed(states[j - 1], states[j], ids[j - 1]));
    }
}

/// A transfer submitted under backpressure was not sent then; once a Flow
/// grants credit it is sent exactly when the window covers it and the whole
/// backlog ahead of it — each earlier submission going out first, with a
/// smaller delivery id — and otherwise it stays queued, at its place in
/// submission order.
pub proof fn lemma_queued_transfer_fifo(
    s0: SessionInner,
    s1: SessionInner,
    s2: SessionInner,
    link_handle: u32,
    message: Message,
    promise: u64,
    f: Flow,
    frames: Seq<OutFrame>,
    link_flow: Option<usize>,
)
    requires
        queued_step(s0, s1, link_handle, message, promise),
        crate::session::flow_ok(s1, f),
        flow_step(s1, s2, f, frames, link_flow),
    ensures
        ({
            let q = s0.pending_transfers@.len() as int;
            let k = drain_count(s1, f);
            &&& (q < k ==> transfer_frame_matches(
                frames[q],
                s1.remote_channel_id,
                PendingTransfer { link_handle, message, promise },
                (s1.next_outgoing_id + q) as u32,
            ) && (forall|j: int| 0 <= j < q ==> transfer_frame_matches(
                frames[j],
                s1.remote_channel_id,
                s0.pending_transfers@[j],
                (s1.next_outgoing_id + j) as u32,
            )))
            &&& (q >= k ==> s2.pending_transfers@[q - k] == PendingTransfer {
                link_handle,
                message,
                promise,
            })
        }),
{
    let q = s0.pending_transfers@.len() as int;
    let k = drain_count(s1, f);
    assert(s1.pending_transfers@[q] == PendingTransfer { link_handle, message, promise });
    assert(forall|j: int| 0 <= j < q ==> s1.pending_transfers@[j] == s0.pending_transfers@[j]);
    if q < k {
        assert(transfer_frame_matches(
            frames[q],
            s1.remote_channel_id,
            s1.pending_transfers@[q],
            (s1.next_outgoing_id + q) as u32,
        ));
        assert forall|j: int| 0 <= j < q implies transfer_frame_matches(
            frames[j],
            s1.remote_channel_id,
            s0.pending_transfers@[j],
            (s1.next_outgoing_id + j) as u32,
        ) by {
            assert(transfer_frame_matches(
                frames[j],
                s1.remote_channel_id,
                s1.pending_transfers@[j],
                (s1.next_outgoing_id + j) as u32,
            ));
        }
    } else {
        assert(s2.pending_transfers@[q - k] == s1.pending_transfers@.skip(k)[q - k]);
    }
}

/// A settled disposition settles its range exactly: every tracked delivery
/// id inside the inclusive range leaves the ledger and is fulfilled —
/// through exactly one settlement, carrying that entry's promise and the
/// disposition's outcome — while every entry outside the range stays, and
/// no settlement is invented.
#[verifier::rlimit(100)]
pub proof fn lemma_disposition_settles_range_exactly(
    pre: SessionInner,
    post: SessionInner,
    d: Disposition,
    settlements: Seq<Settlement>,
)
    requires
        pre.wf(),
        disposition_step(pre, post, d, settlements),
        d.state != Option::Some(DeliveryState::Received),
    ensures
        forall|i: int| 0 <= i < pre.unsettled_deliveries@.len()
            && d.first <= (#[trigger] pre.unsettled_deliveries@[i]).id
            && pre.unsettled_deliveries@[i].id <= disposition_last(d)
            ==> !tracks(post.unsettled_deliveries@, pre.unsettled_deliveries@[i].id)
                && (exists|j: int| 0 <= j < settlements.len()
                    && settlements[j] == settlement_of(pre.unsettled_deliveries@[i], d)),
        forall|a: int, b: int| 0 <= a < b < settlements.len()
            ==> settlements[a].delivery_id < settlements[b].delivery_id,
        forall|i: int| 0 <= i < pre.unsettled_deliveries@.len()
            && !(d.first <= (#[trigger] pre.unsettled_deliveries@[i]).id
                && pre.unsettled_deliveries@[i].id <= disposition_last(d))
            ==> post.unsettled_deliveries@.contains(pre.unsettled_deliveries@[i]),
        forall|j: int| 0 <= j < settlements.len() ==> exists|i: int|
            0 <= i < pre.unsettled_deliveries@.len()
            && #[trigger] settlements[j] == settlement_of(pre.unsettled_deliveries@[i], d),
{
    let l = pre.unsettled_deliveries@;
    let last = disposition_last(d);
    let kept = l.filter(out_of_range(d.first, last));
    let gone = l.filter(in_range(d.first, last));
    lemma_filter_sorted(l, in_range(d.first, last));
    assert forall|i: int| 0 <= i < l.len() && d.first <= (#[trigger] l[i]).id
        && l[i].id <= last
        implies !tracks(post.unsettled_deliveries@, l[i].id) && (exists|j: int|
            0 <= j < settlements.len() && settlements[j] == settlement_of(l[i], d)) by {
        l.lemma_filter_contains(in_range(d.first, last), i);
        let j = choose|j: int| 0 <= j < gone.len() && gone[j] == l[i];
        assert(settlements[j] == settlement_of(l[i], d));
        if tracks(post.unsettled_deliveries@, l[i].id) {
            let w = choose|w: int| 0 <= w < kept.len() && kept[w].id == l[i].id;
            l.lemma_filter_pred(out_of_range(d.first, last), w);
        }
    }
    assert forall|a: int, b: int| 0 <= a < b < settlements.len()
        implies settlements[a].delivery_id < settlements[b].delivery_id by {
        assert(settlements[a] == settlement_of(gone[a], d));
        assert(settlements[b] == settlement_of(gone[b], d));
    }
    assert forall|i: int| 0 <= i < l.len() && !(d.first <= (#[trigger] l[i]).id
        && l[i].id <= last)
        implies post.unsettled_deliveries@.contains(l[i]) by {
        l.lemma_filter_contains(out_of_range(d.first, last), i);
    }
    assert forall|j: int| 0 <= j < settlements.len() implies exists|i: int|
        0 <= i < l.len() && #[trigger] settlements[j] == settlement_of(l[i], d) by {
        lemma_filter_contains_all(l, in_range(d.first, last), j);
        let i = choose|i: int| 0 <= i < l.len() && l[i] == gone[j];
        assert(settlements[j] == settlement_of(l[i], d));
    }
}

/// Every element of a filtered sequence comes from the unfiltered one.
proof fn lemma_filter_contains_all(
    s: Seq<UnsettledDelivery>,
    pred: spec_fn(UnsettledDelivery) -> bool,
    j: int,
)
    requires
        0 <= j < s.filter(pred).len(),
    ensures
        exists|i: int| 0 <= i < s.len() && s[i] == s.filter(pred)[j],
    decreases s.len(),
{
    reveal_with_fuel(Seq::filter, 2);
    if s.len() == 0 {
    } else {
        let rest = s.drop_last();
        let fr = rest.filter(pred);
        if pred(s.last()) && j == fr.len() {
            assert(s[s.len() - 1] == s.filter(pred)[j]);
        } else {
            lemma_filter_contains_all(rest, pred, j);
            let i = choose|i: int| 0 <= i < rest.len() && rest[i] == fr[j];
            assert(s[i] == s.filter(pred)[j]);
        }
    }
}

/// Settling the same delivery-id range twice is safe: the second pass finds
/// no remaining entry in the range, fulfils nothing, and leaves the ledger
/// exactly as the first pass left it.
pub proof fn lemma_settle_idempotent(
    s0: SessionInner,
    s1: SessionInner,
    s2: SessionInner,
    d: Disposition,
    first_pass: Seq<Settlement>,
    second_pass: Seq<Settlement>,
)
    requires
        s0.wf(),
        disposition_step(s0, s1, d, first_pass),
        disposition_step(s1, s2, d, second_pass),
        d.state != Option::Some(DeliveryState::Received),
    ensures
        second_pass == Seq::<Settlement>::empty(),
        s2.unsettled_deliveries@ == s1.unsettled_deliveries@,
{
    let last = disposition_last(d);
    let l0 = s0.unsettled_deliveries@;
    let l1 = s1.unsettled_deliveries@;
    assert forall|i: int| 0 <= i < l1.len() implies out_of_range(d.first, last)(
        #[trigger] l1[i],
    ) by {
        l0.lemma_filter_pred(out_of_range(d.first, last), i);
    }
    assert(forall|i: int| 0 <= i < l1.len() ==> !in_range(d.first, last)(#[trigger] l1[i]));
    lemma_filter_none(l1, in_range(d.first, last));
    lemma_filter_all(l1, out_of_range(d.first, last));
    assert(settled_entries(s1, d).len() == 0);
    assert(second_pass =~= Seq::<Settlement>::empty());
}

} // verus!
