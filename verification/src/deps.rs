use vstd::prelude::*;

use crate::key::TypeKey;

verus! {

/// A type key together with the display name under which it was first
/// observed.
#[derive(Debug)]
pub struct NameRecord {
    pub key: TypeKey,
    pub name: String,
}

/// One singleton registration: which nesting of plugins provided a value
/// for the keyed type. Entries are kept in registration order.
#[derive(Debug)]
pub struct ProviderEntry {
    pub key: TypeKey,
    pub name: String,
    /// Plugin nesting chain at the moment of the registration.
    pub path: Vec<TypeKey>,
}

/// One declared dependency on a singleton type, recorded as declared and
/// validated only at finish. Entries are kept in declaration order.
#[derive(Debug)]
pub struct RequirementRecord {
    pub key: TypeKey,
    pub name: String,
    /// Plugin nesting chain of the declaring plugin.
    pub path: Vec<TypeKey>,
    /// The caller's stated reason for the dependency.
    pub reason: String,
}

/// A plugin type that has finished being added, with the nesting chain at
/// that moment. A key appears at most once, ever.
#[derive(Debug)]
pub struct AddedRecord {
    pub key: TypeKey,
    pub path: Vec<TypeKey>,
}

/// Whether some name record carries `key`.
pub open spec fn has_name_key(s: Seq<NameRecord>, key: TypeKey) -> bool {
    exists|i: int| 0 <= i < s.len() && s[i].key == key
}

/// Whether some provider entry carries `key`.
pub open spec fn has_provider_key(s: Seq<ProviderEntry>, key: TypeKey) -> bool {
    exists|i: int| 0 <= i < s.len() && s[i].key == key
}

/// Whether some added-plugin record carries `key`.
pub open spec fn has_added_key(s: Seq<AddedRecord>, key: TypeKey) -> bool {
    exists|i: int| 0 <= i < s.len() && s[i].key == key
}

/// The dependency declarations whose singleton type has no provider, in
/// declaration order: exactly the entries of `required` whose key occurs
/// nowhere in `provided`.
pub open spec fn unmet_spec(
    provided: Seq<ProviderEntry>,
    required: Seq<RequirementRecord>,
) -> Seq<RequirementRecord>
    decreases required.len(),
{
    if required.len() == 0 {
        Seq::empty()
    } else {
        let rest = unmet_spec(provided, required.drop_last());
        if has_provider_key(provided, required.last().key) {
            rest
        } else {
            rest.push(required.last())
        }
    }
}

/// The keys registered by more than one provider, one occurrence per key,
/// in the order their second registration arrived: each singleton type
/// whose earlier provided values are overwritten, so that the last
/// registration wins at startup.
pub open spec fn warn_keys(s: Seq<ProviderEntry>) -> Seq<TypeKey>
    decreases s.len(),
{
    if s.len() == 0 {
        Seq::empty()
    } else {
        let rest = warn_keys(s.drop_last());
        if has_provider_key(s.drop_last(), s.last().key) && !rest.contains(s.last().key) {
            rest.push(s.last().key)
        } else {
            rest
        }
    }
}

/// Whether one of the first `n` provider entries carries `key`.
pub fn provided_prefix_contains(provided: &Vec<ProviderEntry>, n: usize, key: TypeKey) -> (r: bool)
    requires
        n <= provided@.len(),
    ensures
        r == has_provider_key(provided@.take(n as int), key),
{
    let mut i: usize = 0;
    while i < n
        invariant
            0 <= i <= n <= provided@.len(),
            forall|j: int| 0 <= j < i ==> provided@[j].key != key,
        decreases n - i,
    {
        if provided[i].key == key {
            assert(provided@.take(n as int)[i as int].key == key);
            return true;
        }
        i = i + 1;
    }
    assert(forall|j: int| 0 <= j < n ==> provided@.take(n as int)[j] == provided@[j]);
    false
}

/// Collects the keys with more than one provider, for the non-fatal
/// multiple-provider diagnostic reported at finish.
pub fn compute_warn_keys(provided: &Vec<ProviderEntry>) -> (v: Vec<TypeKey>)
    ensures
        v@ == warn_keys(provided@),
{
    let mut out: Vec<TypeKey> = Vec::new();
    let mut i: usize = 0;
    while i < provided.len()
        invariant
            0 <= i <= provided@.len(),
            out@ == warn_keys(provided@.take(i as int)),
        decreases provided@.len() - i,
    {
        let seen = provided_prefix_contains(provided, i, provided[i].key);
        let already = crate::util::keys_contain(&out, provided[i].key);
        proof {
            assert(provided@.take(i + 1).drop_last() =~= provided@.take(i as int));
            assert(provided@.take(i + 1).last() == provided@[i as int]);
        }
        if seen && !already {
            out.push(provided[i].key);
        }
        i = i + 1;
    }
    assert(provided@.take(provided@.len() as int) =~= provided@);
    out
}

/// Records which plugin provided which singleton type, which plugins
/// declared a dependency on a singleton type (with reason), and which
/// plugin types have already been fully added. Unique-state dependencies
/// are resolved lazily at finish; plugin dependencies eagerly.
pub struct DependencyTracker {
    /// Display name per key, populated the first time a key is observed.
    pub names: Vec<NameRecord>,
    /// Singleton registrations, in registration order.
    pub provided: Vec<ProviderEntry>,
    /// Singleton dependency declarations, in declaration order.
    pub required: Vec<RequirementRecord>,
    /// Fully added plugin types; write-once per key.
    pub added: Vec<AddedRecord>,
}

impl DependencyTracker {
    /// Added-plugin keys never repeat.
    pub open spec fn wf(self) -> bool {
        forall|i: int, j: int|
            0 <= i < j < self.added@.len() ==> self.added@[i].key != self.added@[j].key
    }

    pub fn new() -> (t: DependencyTracker)
        ensures
            t.names@ == Seq::<NameRecord>::empty(),
            t.provided@ == Seq::<ProviderEntry>::empty(),
            t.required@ == Seq::<RequirementRecord>::empty(),
            t.added@ == Seq::<AddedRecord>::empty(),
            t.wf(),
    {
        DependencyTracker {
            names: Vec::new(),
            provided: Vec::new(),
            required: Vec::new(),
            added: Vec::new(),
        }
    }

    /// Idempotent name registration: the first name observed for a key is
    /// the one kept.
    pub fn intern(&mut self, key: TypeKey, name: &str)
        ensures
            has_name_key(old(self).names@, key) ==> final(self).names@ == old(self).names@,
            !has_name_key(old(self).names@, key) ==> {
                &&& final(self).names@.len() == old(self).names@.len() + 1
                &&& final(self).names@.take(old(self).names@.len() as int) == old(self).names@
                &&& final(self).names@.last().key == key
                &&& final(self).names@.last().name@ == name@
            },
            has_name_key(final(self).names@, key),
            final(self).provided@ == old(self).provided@,
            final(self).required@ == old(self).required@,
            final(self).added@ == old(self).added@,
            old(self).wf() ==> final(self).wf(),
    {
        let mut i: usize = 0;
        while i < self.names.len()
            invariant
                0 <= i <= self.names.len(),
                forall|j: int| 0 <= j < i ==> self.names@[j].key != key,
            decreases self.names.len() - i,
        {
            if self.names[i].key == key {
                assert(self.names@[i as int].key == key);
                return;
            }
            i = i + 1;
        }
        let owned = name.to_string();
        self.names.push(NameRecord { key, name: owned });
        assert(self.names@.take(old(self).names@.len() as int) =~= old(self).names@);
    }

    /// Appends one provider registration for `key`, also interning its
    /// name.
    pub fn add_unique_provider(&mut self, key: TypeKey, name: &str, path: Vec<TypeKey>)
        ensures
            has_name_key(final(self).names@, key),
            has_name_key(old(self).names@, key) ==> final(self).names@ == old(self).names@,
            !has_name_key(old(self).names@, key) ==> {
                &&& final(self).names@.len() == old(self).names@.len() + 1
                &&& final(self).names@.take(old(self).names@.len() as int) == old(self).names@
                &&& final(self).names@.last().key == key
                &&& final(self).names@.last().name@ == name@
            },
            final(self).provided@.len() == old(self).provided@.len() + 1,
            final(self).provided@.take(old(self).provided@.len() as int) == old(self).provided@,
            final(self).provided@.last().key == key,
            final(self).provided@.last().name@ == name@,
            final(self).provided@.last().path == path,
            has_provider_key(final(self).provided@, key),
            final(self).required@ == old(self).required@,
            final(self).added@ == old(self).added@,
            old(self).wf() ==> final(self).wf(),
    {
        self.intern(key, name);
        let owned = name.to_string();
        self.provided.push(ProviderEntry { key, name: owned, path });
        assert(self.provided@.take(old(self).provided@.len() as int) =~= old(self).provided@);
    }

    /// Appends one dependency declaration for `key`; never validated here.
    pub fn add_unique_dependency(&mut self, key: TypeKey, name: &str, path: Vec<TypeKey>, reason: &str)
        ensures
            has_name_key(final(self).names@, key),
            has_name_key(old(self).names@, key) ==> final(self).names@ == old(self).names@,
            !has_name_key(old(self).names@, key) ==> {
                &&& final(self).names@.len() == old(self).names@.len() + 1
                &&& final(self).names@.take(old(self).names@.len() as int) == old(self).names@
                &&& final(self).names@.last().key == key
                &&& final(self).names@.last().name@ == name@
            },
            final(self).required@.len() == old(self).required@.len() + 1,
            final(self).required@.take(old(self).required@.len() as int) == old(self).required@,
            final(self).required@.last().key == key,
            final(self).required@.last().name@ == name@,
            final(self).required@.last().path == path,
            final(self).required@.last().reason@ == reason@,
            final(self).provided@ == old(self).provided@,
            final(self).added@ == old(self).added@,
            old(self).wf() ==> final(self).wf(),
    {
        self.intern(key, name);
        let owned_name = name.to_string();
        let owned_reason = reason.to_string();
        self.required.push(RequirementRecord { key, name: owned_name, path, reason: owned_reason });
        assert(self.required@.take(old(self).required@.len() as int) =~= old(self).required@);
    }

    /// Whether `key` has already been fully added as a plugin.
    pub fn added_contains(&self, key: TypeKey) -> (r: bool)
        ensures
            r == has_added_key(self.added@, key),
    {
        let mut i: usize = 0;
        while i < self.added.len()
            invariant
                0 <= i <= self.added.len(),
                forall|j: int| 0 <= j < i ==> self.added@[j].key != key,
            decreases self.added.len() - i,
        {
            if self.added[i].key == key {
                assert(self.added@[i as int].key == key);
                return true;
            }
            i = i + 1;
        }
        false
    }

    /// The nesting chain recorded when `key` finished being added, if it
    /// has been.
    pub fn added_path_of(&self, key: TypeKey) -> (r: Option<Vec<TypeKey>>)
        ensures
            match r {
                Some(p) => exists|i: int|
                    0 <= i < self.added@.len() && self.added@[i].key == key
                        && p@ == self.added@[i].path@,
                None => !has_added_key(self.added@, key),
            },
    {
        let mut i: usize = 0;
        while i < self.added.len()
            invariant
                0 <= i <= self.added.len(),
                forall|j: int| 0 <= j < i ==> self.added@[j].key != key,
            decreases self.added.len() - i,
        {
            if self.added[i].key == key {
                let p = crate::util::copy_keys(&self.added[i].path);
                assert(self.added@[i as int].key == key);
                return Some(p);
            }
            i = i + 1;
        }
        None
    }

    /// Records that `key` has finished being added; write-once.
    pub fn record_added(&mut self, key: TypeKey, path: Vec<TypeKey>)
        requires
            old(self).wf(),
            !has_added_key(old(self).added@, key),
        ensures
            final(self).added@.len() == old(self).added@.len() + 1,
            final(self).added@.take(old(self).added@.len() as int) == old(self).added@,
            final(self).added@.last().key == key,
            final(self).added@.last().path == path,
            has_added_key(final(self).added@, key),
            final(self).names@ == old(self).names@,
            final(self).provided@ == old(self).provided@,
            final(self).required@ == old(self).required@,
            final(self).wf(),
    {
        self.added.push(AddedRecord { key, path });
        assert(self.added@.take(old(self).added@.len() as int) =~= old(self).added@);
        assert forall|i: int, j: int| 0 <= i < j < self.added@.len() implies self.added@[i].key
            != self.added@[j].key by {
            if j < self.added@.len() - 1 {
                assert(old(self).wf());
            } else {
                assert(self.added@[j].key == key);
                assert(!has_added_key(old(self).added@, key));
            }
        }
    }
}

/// Whether some provider entry in `provided` carries `key`.
pub fn provided_contains(provided: &Vec<ProviderEntry>, key: TypeKey) -> (r: bool)
    ensures
        r == has_provider_key(provided@, key),
{
    let mut i: usize = 0;
    while i < provided.len()
        invariant
            0 <= i <= provided.len(),
            forall|j: int| 0 <= j < i ==> provided@[j].key != key,
        decreases provided.len() - i,
    {
        if provided[i].key == key {
            assert(provided@[i as int].key == key);
            return true;
        }
        i = i + 1;
    }
    false
}

/// Filters `required` down to the declarations whose singleton type has no
/// provider: the aggregate content of an unmet-dependency failure.
pub fn compute_unmet(
    provided: &Vec<ProviderEntry>,
    required: Vec<RequirementRecord>,
) -> (v: Vec<RequirementRecord>)
    ensures
        v@ == unmet_spec(provided@, required@),
{
    let ghost orig = required@;
    let mut rest = required;
    let mut out: Vec<RequirementRecord> = Vec::new();
    let ghost mut i: int = 0;
    while rest.len() > 0
        invariant
            0 <= i <= orig.len(),
            rest@ == orig.skip(i),
            out@ == unmet_spec(provided@, orig.take(i)),
        decreases rest.len(),
    {
        let rec = rest.remove(0);
        assert(rec == orig[i]);
        assert(rest@ =~= orig.skip(i + 1));
        let is_provided = provided_contains(provided, rec.key);
        proof {
            assert(orig.take(i + 1).drop_last() =~= orig.take(i));
            assert(orig.take(i + 1).last() == orig[i]);
        }
        if !is_provided {
            out.push(rec);
        }
        proof {
            i = i + 1;
        }
    }
    assert(orig.skip(i).len() == 0);
    assert(i == orig.len());
    assert(orig.take(i) =~= orig);
    out
}

} // verus!
