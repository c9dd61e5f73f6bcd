//! Bounded table of hosts seen this term.
//!
//! The election tracks every node heard from, together with the local state
//! that node last reported, in a fixed-capacity associative store: an arena
//! of `(key, value)` slots searched linearly, with an explicit "full"
//! failure instead of dynamic growth. Insertion order is kept, which the
//! aggregator relies on when it picks the first reported single jack.

use vstd::prelude::*;

use crate::id::NodeId;
use crate::protocol::{LocalState, LocalStateV, opt_state_view};

verus! {

/// Most distinct nodes the table can track at once.
pub const MAX_HOSTS: usize = 16;

/// View of the table: the entries in insertion order.
pub type HostSeq = Seq<(Seq<u8>, Option<LocalStateV>)>;

/// At most [`MAX_HOSTS`] entries, every key distinct.
pub open spec fn table_wf(t: HostSeq) -> bool {
    &&& t.len() <= MAX_HOSTS
    &&& forall|i: int, j: int| 0 <= i < j < t.len() ==> t[i].0 != t[j].0
}

/// Index of the entry holding `k`, or -1 when no entry does.
pub open spec fn find_key(t: HostSeq, k: Seq<u8>) -> int
    decreases t.len(),
{
    if t.len() == 0 {
        -1
    } else if t[0].0 == k {
        0
    } else {
        let r = find_key(t.subrange(1, t.len() as int), k);
        if r == -1 {
            -1
        } else {
            r + 1
        }
    }
}

/// What inserting `(k, v)` does to the table: replaces the value in place
/// when `k` is present, appends when there is room, fails when the table is
/// full and `k` is new.
pub open spec fn table_insert(t: HostSeq, k: Seq<u8>, v: Option<LocalStateV>) -> Option<HostSeq> {
    let i = find_key(t, k);
    if i >= 0 {
        Some(t.update(i, (k, v)))
    } else if t.len() < MAX_HOSTS {
        Some(t.push((k, v)))
    } else {
        None
    }
}

/// The facts the recursive search guarantees: the result is in range, a
/// non-negative result names an entry with the key, everything before the
/// result misses the key, and -1 means no entry has it.
pub proof fn lemma_find_key(t: HostSeq, k: Seq<u8>)
    ensures
        -1 <= find_key(t, k) < t.len(),
        find_key(t, k) >= 0 ==> t[find_key(t, k)].0 == k,
        find_key(t, k) == -1 ==> forall|i: int| 0 <= i < t.len() ==> t[i].0 != k,
        forall|i: int| 0 <= i < find_key(t, k) ==> t[i].0 != k,
    decreases t.len(),
{
    if t.len() == 0 {
    } else if t[0].0 == k {
    } else {
        let tl = t.subrange(1, t.len() as int);
        lemma_find_key(tl, k);
        let r = find_key(tl, k);
        if r == -1 {
            assert forall|i: int| 0 <= i < t.len() implies t[i].0 != k by {
                if i > 0 {
                    assert(tl[i - 1] == t[i]);
                }
            }
        } else {
            assert(tl[r] == t[r + 1]);
            assert forall|i: int| 0 <= i < r + 1 implies t[i].0 != k by {
                if i > 0 {
                    assert(tl[i - 1] == t[i]);
                }
            }
        }
    }
}

/// Whether some entry of the table holds `k`.
pub open spec fn key_present(t: HostSeq, k: Seq<u8>) -> bool {
    exists|i: int| 0 <= i < t.len() && t[i].0 == k
}

/// What a successful insertion guarantees: well-formedness survives, the key
/// is now present, every key that was present still is, and the table grew
/// by at most one slot. A failed insertion means a full table missing the key.
pub proof fn lemma_table_insert_props(t: HostSeq, k: Seq<u8>, v: Option<LocalStateV>)
    requires
        table_wf(t),
    ensures
        match table_insert(t, k, v) {
            Some(t2) => {
                &&& table_wf(t2)
                &&& t.len() <= t2.len() <= t.len() + 1
                &&& key_present(t2, k)
                &&& forall|x: Seq<u8>| key_present(t, x) ==> key_present(t2, x)
            },
            None => !key_present(t, k) && t.len() == MAX_HOSTS,
        },
{
    lemma_find_key(t, k);
    let i = find_key(t, k);
    if i >= 0 {
        let t2 = t.update(i, (k, v));
        assert(forall|x: int| 0 <= x < t2.len() ==> t2[x].0 == t[x].0);
        assert(key_present(t2, k)) by {
            assert(t2[i].0 == k);
        }
        assert forall|x: Seq<u8>| key_present(t, x) implies key_present(t2, x) by {
            let j = choose|j: int| 0 <= j < t.len() && t[j].0 == x;
            assert(t2[j].0 == x);
        }
    } else if t.len() < MAX_HOSTS {
        let t2 = t.push((k, v));
        assert(key_present(t2, k)) by {
            assert(t2[t.len() as int].0 == k);
        }
        assert forall|x: Seq<u8>| key_present(t, x) implies key_present(t2, x) by {
            let j = choose|j: int| 0 <= j < t.len() && t[j].0 == x;
            assert(t2[j].0 == x);
        }
        assert(table_wf(t2)) by {
            assert(forall|x: int| 0 <= x < t.len() ==> t2[x] == t[x]);
        }
    }
}

/// Fixed-capacity map from node identifier to its last reported state.
pub struct HostTable {
    entries: Vec<(NodeId, Option<LocalState>)>,
}

impl View for HostTable {
    type V = HostSeq;

    closed spec fn view(&self) -> HostSeq {
        Seq::new(
            self.entries@.len(),
            |i: int| (self.entries@[i].0@, opt_state_view(self.entries@[i].1)),
        )
    }
}

impl HostTable {
    /// An empty table.
    pub fn new() -> (r: HostTable)
        ensures
            r@ == Seq::<(Seq<u8>, Option<LocalStateV>)>::empty(),
    {
        let t = HostTable { entries: Vec::new() };
        proof {
            assert(t@ =~= Seq::<(Seq<u8>, Option<LocalStateV>)>::empty());
        }
        t
    }

    /// How many distinct hosts are recorded.
    pub fn len(&self) -> (r: usize)
        ensures
            r == self@.len(),
    {
        self.entries.len()
    }

    /// Drop every entry.
    pub fn clear(&mut self)
        ensures
            final(self)@ == Seq::<(Seq<u8>, Option<LocalStateV>)>::empty(),
    {
        self.entries = Vec::new();
        proof {
            assert(self@ =~= Seq::<(Seq<u8>, Option<LocalStateV>)>::empty());
        }
    }

    /// Record `key` with `value`, per [`table_insert`]. Returns false exactly
    /// when the table is full and the key is new.
    pub fn insert(&mut self, key: &NodeId, value: Option<LocalState>) -> (r: bool)
        requires
            table_wf(old(self)@),
        ensures
            table_wf(final(self)@),
            match table_insert(old(self)@, key@, opt_state_view(value)) {
                Some(t2) => r == true && final(self)@ == t2,
                None => r == false && final(self)@ == old(self)@,
            },
    {
        proof {
            lemma_find_key(self@, key@);
        }
        let ghost t0 = self@;
        let n = self.entries.len();
        let mut i: usize = 0;
        while i < n
            invariant
                i <= n,
                self@ == t0,
                t0 == old(self)@,
                n == self.entries@.len(),
                table_wf(t0),
                forall|j: int| 0 <= j < i ==> t0[j].0 != key@,
            decreases n - i,
        {
            let hit = self.entries[i].0.eq_id(key);
            if hit {
                proof {
                    lemma_find_key(t0, key@);
                    assert(t0[i as int].0 == key@);
                    assert(find_key(t0, key@) == i);
                }
                self.entries.set(i, (*key, value));
                proof {
                    let t2 = t0.update(i as int, (key@, opt_state_view(value)));
                    assert(self@ =~= t2);
                    assert(forall|x: int| 0 <= x < t2.len() ==> t2[x].0 == t0[x].0);
                    assert(find_key(t0, key@) == i);
                }
                return true;
            }
            i += 1;
        }
        proof {
            lemma_find_key(t0, key@);
            assert(find_key(t0, key@) == -1) by {
                if find_key(t0, key@) >= 0 {
                    assert(t0[find_key(t0, key@)].0 == key@);
                }
            }
        }
        if n < MAX_HOSTS {
            self.entries.push((*key, value));
            proof {
                assert(self@ =~= t0.push((key@, opt_state_view(value))));
            }
            true
        } else {
            false
        }
    }

    /// The state recorded at slot `i`, in insertion order.
    pub fn state_at(&self, i: usize) -> (r: &Option<LocalState>)
        requires
            i < self@.len(),
        ensures
            opt_state_view(*r) == self@[i as int].1,
    {
        &self.entries[i].1
    }
}

} // verus!
