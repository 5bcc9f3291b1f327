use vstd::prelude::*;

use shipyard::WorkloadSystem;

use crate::key::TypeKey;

verus! {

/// One bookkeeping entry for the tracked-storage switch: who asked for the
/// keyed storage to be change-tracked, and why. Every call records one,
/// including the first.
#[derive(Debug)]
pub struct TrackedEntry {
    pub key: TypeKey,
    pub name: String,
    /// Plugin nesting chain of the requesting plugin.
    pub path: Vec<TypeKey>,
    /// The caller's stated reason for tracking.
    pub reason: String,
}

/// Whether some entry carries `key`: the keyed storage has already been
/// switched into tracking mode.
pub open spec fn has_tracked_key(s: Seq<TrackedEntry>, key: TypeKey) -> bool {
    exists|i: int| 0 <= i < s.len() && s[i].key == key
}

/// What one successful tracking request does to the registrar's entries
/// and to the pending reset-system list: it always appends one entry, and
/// it appends exactly one reset system when and only when the key was not
/// tracked before.
pub open spec fn enable_spec(
    pre: Seq<TrackedEntry>,
    pre_resets: Seq<WorkloadSystem>,
    post: Seq<TrackedEntry>,
    post_resets: Seq<WorkloadSystem>,
    key: TypeKey,
    name: Seq<char>,
    path: Seq<TypeKey>,
    reason: Seq<char>,
) -> bool {
    &&& post.len() == pre.len() + 1
    &&& post.take(pre.len() as int) == pre
    &&& post.last().key == key
    &&& post.last().name@ == name
    &&& post.last().path@ == path
    &&& post.last().reason@ == reason
    &&& if has_tracked_key(pre, key) {
        post_resets == pre_resets
    } else {
        post_resets.len() == pre_resets.len() + 1 && post_resets.take(pre_resets.len() as int)
            == pre_resets
    }
}

/// Records which storages have been switched into change-tracking mode.
/// The switch itself, and the scheduling of one reset system, happen at
/// most once per key no matter how often the key is registered.
pub struct TrackedRegistrar {
    /// All tracking requests, in request order.
    pub entries: Vec<TrackedEntry>,
}

impl TrackedRegistrar {
    pub fn new() -> (t: TrackedRegistrar)
        ensures
            t.entries@ == Seq::<TrackedEntry>::empty(),
    {
        TrackedRegistrar { entries: Vec::new() }
    }

    /// Whether the keyed storage is already in tracking mode.
    pub fn is_tracked(&self, key: TypeKey) -> (r: bool)
        ensures
            r == has_tracked_key(self.entries@, key),
    {
        let mut i: usize = 0;
        while i < self.entries.len()
            invariant
                0 <= i <= self.entries.len(),
                forall|j: int| 0 <= j < i ==> self.entries@[j].key != key,
            decreases self.entries.len() - i,
        {
            if self.entries[i].key == key {
                assert(self.entries@[i as int].key == key);
                return true;
            }
            i = i + 1;
        }
        false
    }

    /// Appends one (path, reason) bookkeeping entry for `key`.
    pub fn record(&mut self, key: TypeKey, name: &str, path: Vec<TypeKey>, reason: &str)
        ensures
            final(self).entries@.len() == old(self).entries@.len() + 1,
            final(self).entries@.take(old(self).entries@.len() as int) == old(self).entries@,
            final(self).entries@.last().key == key,
            final(self).entries@.last().name@ == name@,
            final(self).entries@.last().path == path,
            final(self).entries@.last().reason@ == reason@,
            has_tracked_key(final(self).entries@, key),
    {
        let owned_name = name.to_string();
        let owned_reason = reason.to_string();
        self.entries.push(TrackedEntry { key, name: owned_name, path, reason: owned_reason });
        assert(self.entries@.take(old(self).entries@.len() as int) =~= old(self).entries@);
    }
}

/// Switching a storage into tracking mode twice, with any two reasons,
/// flips the storage and schedules a reset system exactly once, while both
/// reasons stay visible in the bookkeeping entries.
pub proof fn lemma_enable_twice(
    e1: Seq<TrackedEntry>,
    r1: Seq<WorkloadSystem>,
    e2: Seq<TrackedEntry>,
    r2: Seq<WorkloadSystem>,
    e3: Seq<TrackedEntry>,
    r3: Seq<WorkloadSystem>,
    key: TypeKey,
    name: Seq<char>,
    path_a: Seq<TypeKey>,
    reason_a: Seq<char>,
    path_b: Seq<TypeKey>,
    reason_b: Seq<char>,
)
    requires
        !has_tracked_key(e1, key),
        enable_spec(e1, r1, e2, r2, key, name, path_a, reason_a),
        enable_spec(e2, r2, e3, r3, key, name, path_b, reason_b),
    ensures
        r3.len() == r1.len() + 1,
        e3.len() == e1.len() + 2,
        e3[e1.len() as int].reason@ == reason_a,
        e3[e1.len() as int + 1].reason@ == reason_b,
        e3[e1.len() as int].key == key,
        e3[e1.len() as int + 1].key == key,
{
    assert(e2[e1.len() as int] == e2.last());
    assert(has_tracked_key(e2, key)) by {
        assert(e2[e1.len() as int].key == key);
    }
    assert(r3 == r2);
    assert(e3[e1.len() as int] == e3.take(e2.len() as int)[e1.len() as int]);
    assert(e3[e1.len() as int] == e2[e1.len() as int]);
    assert(e3[e1.len() as int + 1] == e3.last());
}

} // verus!
