//! Link lifecycle state and the two indexes around it: the dense slot table
//! of links (a slab keyed by the locally allocated handle) and the
//! pending-link index correlating an outgoing Attach request, by link name,
//! to the slot awaiting the peer's echo.

use vstd::prelude::*;

verus! {

/// Per-link sender state once the peer's Attach has been matched: the handle
/// the peer allocated for the link.
#[derive(Clone, Copy, Debug, PartialEq, Eq, Structural)]
pub struct SenderLinkState {
    pub remote_handle: u32,
}

/// Lifecycle of a link slot.  A slot moves Opening -> Established
/// monotonically and is never re-entered into Opening for the same
/// allocation; a vacant slot is simply absent from the table.
#[derive(Clone, Copy, Debug, PartialEq, Eq, Structural)]
pub enum LinkState {
    /// Local Attach sent; the slot index correlates the caller's completion
    /// promise until the peer's Attach is matched.
    Opening,
    /// Peer's Attach matched; the link is live.
    Established(SenderLinkState),
    /// Detach initiated, not yet finalized.
    Closing(SenderLinkState),
}

impl LinkState {
    /// True in the window between the local Attach being sent and the
    /// peer's Attach being matched.
    pub fn is_opening(&self) -> (r: bool)
        ensures
            r == (*self is Opening),
    {
        match self {
            LinkState::Opening => true,
            _ => false,
        }
    }
}

#[verifier::external_type_specification]
#[verifier::external_body]
#[verifier::reject_recursive_types(T)]
pub struct ExSlab<T>(slab::Slab<T>);

/// The contents of the link slot table: which occupied slot holds which
/// link state.
pub uninterp spec fn slab_entries(s: slab::Slab<LinkState>) -> Map<nat, LinkState>;

/// Relies on slab::Slab::new: a freshly created slab stores no values.
#[verifier::external_body]
pub fn link_slab_new() -> (r: slab::Slab<LinkState>)
    ensures
        ({ let es = slab_entries(r); es =~= Map::<nat, LinkState>::empty() }),
{
    slab::Slab::new()
}

/// Relies on slab::Slab::insert: the value is stored at a vacant key and
/// that key is returned.
#[verifier::external_body]
pub fn link_slab_insert(s: &mut slab::Slab<LinkState>, v: LinkState) -> (key: usize)
    ensures
        !slab_entries(*old(s)).dom().contains(key as nat),
        slab_entries(*final(s)) == slab_entries(*old(s)).insert(key as nat, v),
{
    s.insert(v)
}

/// Relies on slab::Slab::get: Some of the stored value at an occupied key,
/// None at a vacant one.
#[verifier::external_body]
pub fn link_slab_get(s: &slab::Slab<LinkState>, key: usize) -> (r: Option<LinkState>)
    ensures
        r == if slab_entries(*s).dom().contains(key as nat) {
            Option::Some(slab_entries(*s)[key as nat])
        } else {
            Option::None::<LinkState>
        },
{
    s.get(key).copied()
}

/// Relies on slab::Slab's IndexMut impl: assigning through an occupied key
/// replaces the stored value in place (it panics only at a vacant key,
/// which the precondition rules out).
#[verifier::external_body]
pub fn link_slab_set(s: &mut slab::Slab<LinkState>, key: usize, v: LinkState)
    requires
        slab_entries(*old(s)).dom().contains(key as nat),
    ensures
        slab_entries(*final(s)) == slab_entries(*old(s)).insert(key as nat, v),
{
    s[key] = v;
}

/// One pending attach request: the requested link name and the slot awaiting
/// the peer's echo.
#[derive(Debug)]
pub struct PendingLink {
    pub name: String,
    pub slot: usize,
}

/// The index of the first entry named `n`, or -1 when there is none.
pub open spec fn find_name(s: Seq<PendingLink>, n: Seq<char>) -> int
    decreases s.len(),
{
    if s.len() == 0 {
        -1
    } else if s[0].name@ == n {
        0
    } else {
        let r = find_name(s.drop_first(), n);
        if r < 0 {
            -1
        } else {
            r + 1
        }
    }
}

/// True when some entry is named `n`.
pub open spec fn contains_name(s: Seq<PendingLink>, n: Seq<char>) -> bool {
    find_name(s, n) >= 0
}

/// True when no two entries share a name.
pub open spec fn unique_names(s: Seq<PendingLink>) -> bool {
    forall|i: int, j: int| 0 <= i < j < s.len() ==> s[i].name@ != s[j].name@
}

/// What `find_name` finds: a well-placed entry named `n`, every earlier
/// entry named otherwise; and when it finds nothing, no entry is named `n`.
pub proof fn lemma_find_name_props(s: Seq<PendingLink>, n: Seq<char>)
    ensures
        find_name(s, n) >= 0 ==> find_name(s, n) < s.len() && s[find_name(s, n)].name@ == n
            && (forall|j: int| 0 <= j < find_name(s, n) ==> s[j].name@ != n),
        find_name(s, n) < 0 ==> (forall|j: int| 0 <= j < s.len() ==> s[j].name@ != n),
    decreases s.len(),
{
    if s.len() == 0 {
    } else if s[0].name@ == n {
    } else {
        let rest = s.drop_first();
        lemma_find_name_props(rest, n);
        let r = find_name(rest, n);
        if r >= 0 {
            assert(find_name(s, n) == r + 1);
            assert(s[r + 1] == rest[r]);
            assert forall|j: int| 0 <= j < r + 1 implies s[j].name@ != n by {
                if j > 0 {
                    assert(s[j] == rest[j - 1]);
                }
            }
        } else {
            assert(find_name(s, n) == -1);
            assert forall|j: int| 0 <= j < s.len() implies s[j].name@ != n by {
                if j > 0 {
                    assert(s[j] == rest[j - 1]);
                }
            }
        }
    }
}

/// The entry at `i` is the first one named `n` exactly when `find_name`
/// returns `i`.
pub proof fn lemma_find_name_at(s: Seq<PendingLink>, n: Seq<char>, i: int)
    requires
        0 <= i < s.len(),
        s[i].name@ == n,
        forall|j: int| 0 <= j < i ==> s[j].name@ != n,
    ensures
        find_name(s, n) == i,
    decreases s.len(),
{
    if i == 0 {
    } else {
        let rest = s.drop_first();
        assert(rest[i - 1] == s[i]);
        assert forall|j: int| 0 <= j < i - 1 implies rest[j].name@ != n by {
            assert(rest[j] == s[j + 1]);
        }
        lemma_find_name_at(rest, n, i - 1);
        assert(find_name(s, n) == find_name(rest, n) + 1);
    }
}

/// Removing an entry keeps names unique.
pub proof fn lemma_unique_names_remove(s: Seq<PendingLink>, i: int)
    requires
        unique_names(s),
        0 <= i < s.len(),
    ensures
        unique_names(s.remove(i)),
{
    let t = s.remove(i);
    assert forall|a: int, b: int| 0 <= a < b < t.len() implies t[a].name@ != t[b].name@ by {
        let a0 = if a < i { a } else { a + 1 };
        let b0 = if b < i { b } else { b + 1 };
        assert(t[a] == s[a0]);
        assert(t[b] == s[b0]);
    }
}

/// Removing the one entry named `n` leaves no entry named `n`.
pub proof fn lemma_remove_found_name(s: Seq<PendingLink>, n: Seq<char>)
    requires
        unique_names(s),
        contains_name(s, n),
    ensures
        !contains_name(s.remove(find_name(s, n)), n),
{
    let i = find_name(s, n);
    lemma_find_name_props(s, n);
    let t = s.remove(i);
    assert forall|a: int| 0 <= a < t.len() implies t[a].name@ != n by {
        let a0 = if a < i { a } else { a + 1 };
        assert(t[a] == s[a0]);
    }
    lemma_find_name_props(t, n);
}

/// Index of links in the Opening state, keyed by link name; an entry lives
/// only from the local Attach being sent to the peer's Attach being matched.
#[derive(Debug)]
pub struct PendingLinks {
    entries: Vec<PendingLink>,
}

impl View for PendingLinks {
    type V = Seq<PendingLink>;

    closed spec fn view(&self) -> Seq<PendingLink> {
        self.entries@
    }
}

impl PendingLinks {
    /// Well-formed: no two pending entries share a name.
    pub open spec fn wf(self) -> bool {
        unique_names(self@)
    }

    /// An empty index.
    pub fn new() -> (r: PendingLinks)
        ensures
            r@ == Seq::<PendingLink>::empty(),
            r.wf(),
    {
        PendingLinks { entries: Vec::new() }
    }

    /// Number of pending attach requests.
    pub fn len(&self) -> (n: usize)
        ensures
            n == self@.len(),
    {
        self.entries.len()
    }

    /// Whether an attach request under `name` is already in flight.
    pub fn contains(&self, name: &String) -> (r: bool)
        ensures
            r == contains_name(self@, name@),
    {
        let n = self.entries.len();
        let mut i: usize = 0;
        while i < n
            invariant
                i <= n,
                n == self@.len(),
                forall|j: int| 0 <= j < i ==> self@[j].name@ != name@,
            decreases n - i,
        {
            if self.entries[i].name == *name {
                proof {
                    lemma_find_name_at(self@, name@, i as int);
                }
                return true;
            }
            i = i + 1;
        }
        proof {
            lemma_find_name_props(self@, name@);
        }
        false
    }

    /// Register a pending attach request under a name not yet in flight.
    pub fn insert(&mut self, name: String, slot: usize)
        requires
            !contains_name(old(self)@, name@),
        ensures
            final(self)@ == old(self)@.push(PendingLink { name, slot }),
            old(self).wf() ==> final(self).wf(),
    {
        proof {
            lemma_find_name_props(self@, name@);
        }
        self.entries.push(PendingLink { name, slot });
    }

    /// Remove the entry for `name`, handing back its slot; None, and no
    /// change, when `name` is not pending.
    pub fn take(&mut self, name: &String) -> (r: Option<usize>)
        requires
            old(self).wf(),
        ensures
            final(self).wf(),
            ({
                let i = find_name(old(self)@, name@);
                if i >= 0 {
                    r == Option::Some(old(self)@[i].slot)
                        && final(self)@ == old(self)@.remove(i)
                } else {
                    r == Option::None::<usize> && final(self)@ == old(self)@
                }
            }),
            !contains_name(final(self)@, name@),
    {
        let n = self.entries.len();
        let mut i: usize = 0;
        while i < n
            invariant
                i <= n,
                n == self@.len(),
                self@ == old(self)@,
                unique_names(self@),
                forall|j: int| 0 <= j < i ==> self@[j].name@ != name@,
            decreases n - i,
        {
            if self.entries[i].name == *name {
                proof {
                    lemma_find_name_at(self@, name@, i as int);
                    lemma_unique_names_remove(self@, i as int);
                    lemma_remove_found_name(self@, name@);
                }
                let e = self.entries.remove(i);
                return Option::Some(e.slot);
            }
            i = i + 1;
        }
        proof {
            lemma_find_name_props(self@, name@);
        }
        Option::None
    }
}

} // verus!
