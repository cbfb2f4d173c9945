//! The delivery ledger: an ordered mapping from delivery identifier to the
//! settlement promise awaiting that delivery's outcome.  Delivery identifiers
//! are assigned in strictly increasing order, so the ledger is kept as a
//! vector sorted by identifier and insertion is always at the back.

use vstd::prelude::*;

verus! {

/// One outstanding delivery: its identifier and the token of the settlement
/// promise to fulfil with the outcome.
#[derive(Clone, Copy, Debug, PartialEq, Eq, Structural)]
pub struct UnsettledDelivery {
    pub id: u32,
    pub promise: u64,
}

/// True when the entries are sorted by strictly increasing delivery id;
/// in particular every id appears at most once.
pub open spec fn sorted_by_id(s: Seq<UnsettledDelivery>) -> bool {
    forall|i: int, j: int| 0 <= i < j < s.len() ==> s[i].id < s[j].id
}

/// True when `s` holds an entry for delivery id `id`.
pub open spec fn tracks(s: Seq<UnsettledDelivery>, id: u32) -> bool {
    exists|i: int| 0 <= i < s.len() && s[i].id == id
}

/// The predicate selecting entries inside the inclusive range `[first, last]`.
pub open spec fn in_range(first: u32, last: u32) -> spec_fn(UnsettledDelivery) -> bool {
    |e: UnsettledDelivery| first <= e.id && e.id <= last
}

/// The predicate selecting entries outside the inclusive range `[first, last]`.
pub open spec fn out_of_range(first: u32, last: u32) -> spec_fn(UnsettledDelivery) -> bool {
    |e: UnsettledDelivery| !(first <= e.id && e.id <= last)
}

/// Ordered map, delivery id -> settlement promise.  An id appears at most
/// once; entries leave exactly once, by settlement.
#[derive(Debug)]
pub struct DeliveryLedger {
    entries: Vec<UnsettledDelivery>,
}

impl View for DeliveryLedger {
    type V = Seq<UnsettledDelivery>;

    closed spec fn view(&self) -> Seq<UnsettledDelivery> {
        self.entries@
    }
}

impl DeliveryLedger {
    /// Well-formed: entries sorted by strictly increasing delivery id.
    pub open spec fn wf(self) -> bool {
        sorted_by_id(self@)
    }

    /// Every tracked delivery id is below `id`.
    pub open spec fn all_below(self, id: u32) -> bool {
        forall|i: int| 0 <= i < self@.len() ==> self@[i].id < id
    }

    /// An empty ledger.
    pub fn new() -> (r: DeliveryLedger)
        ensures
            r@ == Seq::<UnsettledDelivery>::empty(),
            r.wf(),
    {
        DeliveryLedger { entries: Vec::new() }
    }

    /// Number of outstanding deliveries.
    pub fn len(&self) -> (n: usize)
        ensures
            n == self@.len(),
    {
        self.entries.len()
    }

    /// Register a freshly assigned delivery id.  Ids grow monotonically, so
    /// the new entry belongs at the back and sortedness is preserved.
    pub fn insert(&mut self, id: u32, promise: u64)
        requires
            old(self).all_below(id),
        ensures
            final(self)@ == old(self)@.push(UnsettledDelivery { id, promise }),
            old(self).wf() ==> final(self).wf(),
    {
        self.entries.push(UnsettledDelivery { id, promise });
    }

    /// Remove and return, in ascending id order, every entry whose delivery
    /// id lies in the inclusive range `[first, last]`.  Entries outside the
    /// range are untouched; ids in the range with no entry are skipped.
    pub fn settle_range(&mut self, first: u32, last: u32) -> (removed: Vec<UnsettledDelivery>)
        requires
            old(self).wf(),
        ensures
            removed@ == old(self)@.filter(in_range(first, last)),
            final(self)@ == old(self)@.filter(out_of_range(first, last)),
            final(self).wf(),
            sorted_by_id(removed@),
            forall|a: int| 0 <= a < final(self)@.len()
                ==> old(self)@.contains(#[trigger] final(self)@[a]),
            forall|a: int| 0 <= a < removed@.len() ==> old(self)@.contains(#[trigger] removed@[a]),
    {
        let ghost orig: Seq<UnsettledDelivery> = self.entries@;
        let mut kept: Vec<UnsettledDelivery> = Vec::new();
        let mut removed: Vec<UnsettledDelivery> = Vec::new();
        let n: usize = self.entries.len();
        let mut i: usize = 0;
        while i < n
            invariant
                n == orig.len(),
                i <= n,
                self.entries@ == orig,
                removed@ == orig.take(i as int).filter(in_range(first, last)),
                kept@ == orig.take(i as int).filter(out_of_range(first, last)),
            decreases n - i,
        {
            let e = self.entries[i];
            proof {
                assert(orig.take(i + 1 as int) =~= orig.take(i as int) + seq![orig[i as int]]);
                Seq::filter_distributes_over_add(
                    orig.take(i as int),
                    seq![orig[i as int]],
                    in_range(first, last),
                );
                Seq::filter_distributes_over_add(
                    orig.take(i as int),
                    seq![orig[i as int]],
                    out_of_range(first, last),
                );
                lemma_filter_singleton(orig[i as int], in_range(first, last));
                lemma_filter_singleton(orig[i as int], out_of_range(first, last));
            }
            if first <= e.id && e.id <= last {
                removed.push(e);
                proof {
                    assert(removed@ =~= orig.take(i as int).filter(in_range(first, last))
                        + seq![orig[i as int]]);
                    assert(kept@ =~= orig.take(i as int).filter(out_of_range(first, last))
                        + Seq::<UnsettledDelivery>::empty());
                }
            } else {
                kept.push(e);
                proof {
                    assert(kept@ =~= orig.take(i as int).filter(out_of_range(first, last))
                        + seq![orig[i as int]]);
                    assert(removed@ =~= orig.take(i as int).filter(in_range(first, last))
                        + Seq::<UnsettledDelivery>::empty());
                }
            }
            i = i + 1;
        }
        proof {
            assert(orig.take(n as int) =~= orig);
            lemma_filter_sorted(orig, in_range(first, last));
            lemma_filter_sorted(orig, out_of_range(first, last));
        }
        self.entries = kept;
        removed
    }
}

/// Filtering a single-element sequence keeps the element exactly when the
/// predicate holds of it.
proof fn lemma_filter_singleton(e: UnsettledDelivery, pred: spec_fn(UnsettledDelivery) -> bool)
    ensures
        pred(e) ==> seq![e].filter(pred) == seq![e],
        !pred(e) ==> seq![e].filter(pred) == Seq::<UnsettledDelivery>::empty(),
{
    reveal_with_fuel(Seq::filter, 2);
    assert(seq![e].drop_last() =~= Seq::<UnsettledDelivery>::empty());
    assert(seq![e].last() == e);
    if pred(e) {
        assert(seq![e].filter(pred) =~= seq![e]);
    } else {
        assert(seq![e].filter(pred) =~= Seq::<UnsettledDelivery>::empty());
    }
}

/// Filtering keeps everything when the predicate holds everywhere.
pub proof fn lemma_filter_all(s: Seq<UnsettledDelivery>, pred: spec_fn(UnsettledDelivery) -> bool)
    requires
        forall|i: int| 0 <= i < s.len() ==> pred(#[trigger] s[i]),
    ensures
        s.filter(pred) == s,
    decreases s.len(),
{
    reveal_with_fuel(Seq::filter, 2);
    if s.len() == 0 {
        assert(s.filter(pred) =~= s);
    } else {
        let rest = s.drop_last();
        lemma_filter_all(rest, pred);
        assert(pred(s.last()));
        assert(s.filter(pred) =~= s);
    }
}

/// Filtering removes everything when the predicate holds nowhere.
pub proof fn lemma_filter_none(s: Seq<UnsettledDelivery>, pred: spec_fn(UnsettledDelivery) -> bool)
    requires
        forall|i: int| 0 <= i < s.len() ==> !pred(#[trigger] s[i]),
    ensures
        s.filter(pred) == Seq::<UnsettledDelivery>::empty(),
    decreases s.len(),
{
    reveal_with_fuel(Seq::filter, 2);
    if s.len() == 0 {
        assert(s.filter(pred) =~= Seq::<UnsettledDelivery>::empty());
    } else {
        let rest = s.drop_last();
        lemma_filter_none(rest, pred);
        assert(!pred(s.last()));
        assert(s.filter(pred) =~= Seq::<UnsettledDelivery>::empty());
    }
}

/// Filtering preserves sortedness by delivery id.
pub proof fn lemma_filter_sorted(s: Seq<UnsettledDelivery>, pred: spec_fn(UnsettledDelivery) -> bool)
    requires
        sorted_by_id(s),
    ensures
        sorted_by_id(s.filter(pred)),
        forall|a: int| 0 <= a < s.filter(pred).len() ==> s.contains(#[trigger] s.filter(pred)[a]),
    decreases s.len(),
{
    reveal_with_fuel(Seq::filter, 2);
    if s.len() == 0 {
    } else {
        let rest = s.drop_last();
        assert(sorted_by_id(rest));
        lemma_filter_sorted(rest, pred);
        let fr = rest.filter(pred);
        assert(forall|a: int| 0 <= a < rest.len() ==> rest[a] == s[a]);
        assert(forall|a: int| 0 <= a < fr.len() ==> s.contains(#[trigger] fr[a])) by {
            assert(forall|a: int| 0 <= a < fr.len() ==> rest.contains(#[trigger] fr[a]));
            assert(forall|b: int| 0 <= b < rest.len() ==> s.contains(rest[b]));
        }
        if pred(s.last()) {
            assert(s.filter(pred) == fr.push(s.last()));
            assert(forall|a: int| 0 <= a < fr.len() ==> (#[trigger] fr[a]).id < s.last().id) by {
                assert(forall|a: int| 0 <= a < fr.len() ==> rest.contains(#[trigger] fr[a]));
                assert(forall|b: int| 0 <= b < rest.len() ==> (#[trigger] rest[b]).id < s.last().id);
            }
            assert(sorted_by_id(fr.push(s.last())));
            assert(s.contains(s.last())) by {
                assert(s[s.len() - 1] == s.last());
            }
        } else {
            assert(s.filter(pred) == fr);
        }
    }
}

} // verus!
