//! How many entries of each group are still in flight, so that a group is
//! cleaned up once its last entry is done.

use vstd::prelude::*;
use vstd::hash_map::StringHashMap;

verus! {

/// The number of entries still in flight, by group id.
pub struct GroupCounters {
    counts: StringHashMap<usize>,
}

impl View for GroupCounters {
    type V = Map<Seq<char>, usize>;

    closed spec fn view(&self) -> Map<Seq<char>, usize> {
        self.counts@
    }
}

/// What finishing one entry of `group` does to the counts, and whether the
/// group is to be cleaned up: the count goes down by one, and a group whose
/// count reaches zero leaves the counts and is cleaned up. A group that is
/// not counted is left alone.
pub open spec fn completed(m: Map<Seq<char>, usize>, group: Seq<char>) -> (Map<Seq<char>, usize>, bool) {
    if m.contains_key(group) {
        if m[group] == 1 {
            (m.remove(group), true)
        } else {
            (m.insert(group, (m[group] - 1) as usize), false)
        }
    } else {
        (m, false)
    }
}

/// The counts after `k` entries of `group` are finished.
pub open spec fn completed_times(m: Map<Seq<char>, usize>, group: Seq<char>, k: nat) -> Map<
    Seq<char>,
    usize,
>
    decreases k,
{
    if k == 0 {
        m
    } else {
        completed(completed_times(m, group, (k - 1) as nat), group).0
    }
}

impl GroupCounters {
    /// No group counted.
    pub fn new() -> (r: GroupCounters)
        ensures
            r@ == Map::<Seq<char>, usize>::empty(),
    {
        GroupCounters { counts: StringHashMap::new() }
    }

    /// Counts `total` entries in flight for `group`, in place of any earlier count.
    pub fn register(&mut self, group: &String, total: usize)
        ensures
            final(self)@ == old(self)@.insert(group@, total),
    {
        self.counts.insert(group.clone(), total);
    }

    /// The entries of `group` still in flight, where it is counted.
    pub fn remaining(&self, group: &str) -> (r: Option<usize>)
        ensures
            r == (if self@.contains_key(group@) {
                Some(self@[group@])
            } else {
                None
            }),
    {
        match self.counts.get(group) {
            Some(c) => Some(*c),
            None => None,
        }
    }

    /// Records that one entry of `group` is done; true where the group is
    /// now to be cleaned up. A counted group has entries in flight.
    pub fn complete_one(&mut self, group: &str) -> (cleanup: bool)
        requires
            old(self)@.contains_key(group@) ==> old(self)@[group@] > 0,
        ensures
            (final(self)@, cleanup) == completed(old(self)@, group@),
    {
        match self.counts.get(group) {
            Some(c) => {
                let left: usize = *c - 1;
                if left == 0 {
                    self.counts.remove(group);
                    true
                } else {
                    self.counts.insert(String::from_str(group), left);
                    false
                }
            },
            None => false,
        }
    }

    /// Ends `group` at once, whatever is left of it; true where it was counted
    /// and is to be cleaned up.
    pub fn finish(&mut self, group: &str) -> (cleanup: bool)
        ensures
            final(self)@ == old(self)@.remove(group@),
            cleanup == old(self)@.contains_key(group@),
    {
        if self.counts.contains_key(group) {
            self.counts.remove(group);
            true
        } else {
            false
        }
    }
}

/// A group registered with `n` entries is cleaned up by the `n`-th entry that
/// finishes and by no earlier one; until then it counts the entries left, and
/// the counts of other groups do not change.
pub proof fn lemma_group_cleanup_at_last_entry(
    m: Map<Seq<char>, usize>,
    group: Seq<char>,
    n: usize,
    k: nat,
)
    requires
        0 < n,
        k < n,
    ensures
        completed_times(m.insert(group, n), group, k).contains_key(group),
        completed_times(m.insert(group, n), group, k)[group] == n - k,
        completed(completed_times(m.insert(group, n), group, k), group).1 == (k + 1 == n),
        k + 1 == n ==> !completed(
            completed_times(m.insert(group, n), group, k),
            group,
        ).0.contains_key(group),
        forall|other: Seq<char>|
            other != group ==> (#[trigger] completed_times(m.insert(group, n), group, k).contains_key(
                other,
            ) <==> m.contains_key(other)),
        forall|other: Seq<char>|
            other != group && m.contains_key(other) ==> #[trigger] completed_times(
                m.insert(group, n),
                group,
                k,
            )[other] == m[other],
    decreases k,
{
    if k > 0 {
        lemma_group_cleanup_at_last_entry(m, group, n, (k - 1) as nat);
        let prev = completed_times(m.insert(group, n), group, (k - 1) as nat);
        let next = completed_times(m.insert(group, n), group, k);
        assert(next == prev.insert(group, (prev[group] - 1) as usize));
        assert forall|other: Seq<char>| other != group implies (#[trigger] next.contains_key(other)
            <==> m.contains_key(other)) by {
            assert(prev.contains_key(other) == m.contains_key(other));
        }
        assert forall|other: Seq<char>| other != group && m.contains_key(other) implies #[trigger] next[other]
            == m[other] by {
            assert(prev[other] == m[other]);
        }
    } else {
        assert(completed_times(m.insert(group, n), group, k) == m.insert(group, n));
    }
}

/// How many of the first `k` entries of `group` to finish signal a clean-up.
pub open spec fn cleanups(m: Map<Seq<char>, usize>, group: Seq<char>, k: nat) -> nat
    decreases k,
{
    if k == 0 {
        0
    } else {
        cleanups(m, group, (k - 1) as nat) + if completed(
            completed_times(m, group, (k - 1) as nat),
            group,
        ).1 {
            1nat
        } else {
            0nat
        }
    }
}

proof fn lemma_cleanups_before_last(m: Map<Seq<char>, usize>, group: Seq<char>, n: usize, k: nat)
    requires
        0 < n,
        k <= n,
    ensures
        cleanups(m.insert(group, n), group, k) == (if k == n {
            1nat
        } else {
            0nat
        }),
    decreases k,
{
    if k > 0 {
        lemma_cleanups_before_last(m, group, n, (k - 1) as nat);
        lemma_group_cleanup_at_last_entry(m, group, n, (k - 1) as nat);
    }
}

/// A group registered with `n` entries is cleaned up exactly once as its `n`
/// entries finish, and then no longer counted.
pub proof fn lemma_group_cleaned_up_once(m: Map<Seq<char>, usize>, group: Seq<char>, n: usize)
    requires
        0 < n,
    ensures
        cleanups(m.insert(group, n), group, n as nat) == 1,
        !completed_times(m.insert(group, n), group, n as nat).contains_key(group),
{
    lemma_cleanups_before_last(m, group, n, n as nat);
    lemma_group_cleanup_at_last_entry(m, group, n, (n - 1) as nat);
}

} // verus!
