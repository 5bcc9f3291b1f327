use vstd::prelude::*;

use crate::key::TypeKey;

verus! {

/// The currently-active plugin call chain: an ordered stack of type keys.
/// Used for cycle detection before a plugin is entered and as a provenance
/// tag stored alongside every registration. While open it never holds the
/// same key twice.
pub struct Path {
    pub keys: Vec<TypeKey>,
}

impl View for Path {
    type V = Seq<TypeKey>;

    open spec fn view(&self) -> Seq<TypeKey> {
        self.keys@
    }
}

impl Path {
    /// No key occurs twice in the chain.
    pub open spec fn wf(self) -> bool {
        forall|i: int, j: int|
            0 <= i < j < self@.len() ==> self@[i] != self@[j]
    }

    pub fn new() -> (p: Path)
        ensures
            p@ == Seq::<TypeKey>::empty(),
            p.wf(),
    {
        Path { keys: Vec::new() }
    }

    pub fn len(&self) -> (n: usize)
        ensures
            n == self@.len(),
    {
        self.keys.len()
    }

    /// Whether `key` is somewhere on the chain.
    pub fn contains(&self, key: TypeKey) -> (r: bool)
        ensures
            r == self@.contains(key),
    {
        let mut i: usize = 0;
        while i < self.keys.len()
            invariant
                0 <= i <= self.keys.len(),
                forall|j: int| 0 <= j < i ==> self.keys@[j] != key,
            decreases self.keys.len() - i,
        {
            if self.keys[i] == key {
                assert(self@[i as int] == key);
                return true;
            }
            i = i + 1;
        }
        assert(forall|j: int| 0 <= j < self@.len() ==> self@[j] != key);
        false
    }

    /// Append `key`; the caller has checked it is not already present, so
    /// the no-duplicate invariant is preserved.
    pub fn push(&mut self, key: TypeKey)
        requires
            old(self).wf(),
            !old(self)@.contains(key),
        ensures
            final(self)@ == old(self)@.push(key),
            final(self).wf(),
    {
        self.keys.push(key);
        assert forall|i: int, j: int| 0 <= i < j < self@.len() implies self@[i] != self@[j] by {
            if j < self@.len() - 1 {
                assert(old(self).wf());
            } else {
                assert(self@[j] == key);
                assert(old(self)@.contains(key) == false);
            }
        }
    }

    /// Remove the most recently pushed key.
    pub fn pop(&mut self)
        requires
            old(self)@.len() > 0,
        ensures
            final(self)@ == old(self)@.drop_last(),
            old(self).wf() ==> final(self).wf(),
    {
        self.keys.pop();
    }

    /// A copy of the chain as it stands, recorded as provenance.
    pub fn snapshot(&self) -> (s: Vec<TypeKey>)
        ensures
            s@ == self@,
    {
        let mut out: Vec<TypeKey> = Vec::new();
        let mut i: usize = 0;
        while i < self.keys.len()
            invariant
                0 <= i <= self.keys.len(),
                out@ == self.keys@.take(i as int),
            decreases self.keys.len() - i,
        {
            out.push(self.keys[i]);
            assert(self.keys@.take(i + 1) == self.keys@.take(i as int).push(self.keys@[i as int]));
            i = i + 1;
        }
        assert(self.keys@.take(self.keys@.len() as int) == self.keys@);
        out
    }
}

} // verus!
