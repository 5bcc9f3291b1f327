use vstd::prelude::*;

use shipyard::WorkloadSystem;

use crate::errors::BuildError;
use crate::util::clone_string;
use crate::util::str_eq;

verus! {

/// One named, ordered bucket of systems: a sequential phase of the final
/// workload. Systems inside a stage keep their registration order.
pub struct Stage {
    pub name: String,
    pub systems: Vec<WorkloadSystem>,
}

/// Name and size of one stage, reported back by finish.
#[derive(Debug)]
pub struct StageSummary {
    pub name: String,
    pub system_count: usize,
}

/// Whether a stage with this name exists.
pub open spec fn has_stage(s: Seq<Stage>, name: Seq<char>) -> bool {
    exists|i: int| 0 <= i < s.len() && s[i].name@ == name
}

/// All stage systems in stage order, systems within one stage in
/// registration order: the workload's ordered core.
pub open spec fn flat_systems(s: Seq<Stage>) -> Seq<WorkloadSystem>
    decreases s.len(),
{
    if s.len() == 0 {
        Seq::empty()
    } else {
        flat_systems(s.drop_last()) + s.last().systems@
    }
}

/// Named, ordered buckets of systems; produces one concatenated ordered
/// system list. Stage names are unique.
pub struct StageAssembler {
    pub stages: Vec<Stage>,
}

impl StageAssembler {
    /// Stage names never repeat.
    pub open spec fn wf(self) -> bool {
        forall|i: int, j: int|
            0 <= i < j < self.stages@.len() ==> self.stages@[i].name@ != self.stages@[j].name@
    }

    pub fn new() -> (a: StageAssembler)
        ensures
            a.stages@ == Seq::<Stage>::empty(),
            a.wf(),
    {
        StageAssembler { stages: Vec::new() }
    }

    /// Whether a stage named `name` exists.
    pub fn contains_stage(&self, name: &str) -> (r: bool)
        ensures
            r == has_stage(self.stages@, name@),
    {
        let mut i: usize = 0;
        while i < self.stages.len()
            invariant
                0 <= i <= self.stages.len(),
                forall|j: int| 0 <= j < i ==> self.stages@[j].name@ != name@,
            decreases self.stages.len() - i,
        {
            if str_eq(self.stages[i].name.as_str(), name) {
                assert(self.stages@[i as int].name@ == name@);
                return true;
            }
            i = i + 1;
        }
        false
    }

    /// Appends an empty stage under `name`; refused when the name is
    /// already present.
    pub fn add_stage(&mut self, name: String) -> (r: Result<(), BuildError>)
        requires
            old(self).wf(),
        ensures
            final(self).wf(),
            has_stage(old(self).stages@, name@) ==> {
                &&& (r matches Err(BuildError::DuplicateStage { name: n }) && n@ == name@)
                &&& *final(self) == *old(self)
            },
            !has_stage(old(self).stages@, name@) ==> {
                &&& r matches Ok(u) && u == ()
                &&& final(self).stages@.len() == old(self).stages@.len() + 1
                &&& final(self).stages@.take(old(self).stages@.len() as int) == old(self).stages@
                &&& final(self).stages@.last().name@ == name@
                &&& final(self).stages@.last().systems@ == Seq::<WorkloadSystem>::empty()
            },
    {
        if self.contains_stage(name.as_str()) {
            return Err(BuildError::DuplicateStage { name });
        }
        self.stages.push(Stage { name, systems: Vec::new() });
        assert(self.stages@.take(old(self).stages@.len() as int) =~= old(self).stages@);
        assert forall|i: int, j: int| 0 <= i < j < self.stages@.len() implies self.stages@[i].name@
            != self.stages@[j].name@ by {
            if j < self.stages@.len() - 1 {
                assert(old(self).wf());
            } else {
                assert(!has_stage(old(self).stages@, self.stages@[j].name@));
            }
        }
        Ok(())
    }

    /// Appends `system` to the end of the stage named `name`; refused when
    /// no such stage exists.
    pub fn add_system_to_stage(&mut self, name: &str, system: WorkloadSystem) -> (r: Result<
        (),
        BuildError,
    >)
        requires
            old(self).wf(),
        ensures
            final(self).wf(),
            !has_stage(old(self).stages@, name@) ==> {
                &&& (r matches Err(BuildError::UnknownStage { name: n }) && n@ == name@)
                &&& *final(self) == *old(self)
            },
            has_stage(old(self).stages@, name@) ==> {
                &&& r matches Ok(u) && u == ()
                &&& final(self).stages@.len() == old(self).stages@.len()
                &&& exists|i: int|
                    {
                        &&& 0 <= i < old(self).stages@.len()
                        &&& old(self).stages@[i].name@ == name@
                        &&& final(self).stages@[i].name == old(self).stages@[i].name
                        &&& final(self).stages@[i].systems@ == old(self).stages@[i].systems@.push(
                            system,
                        )
                        &&& (forall|j: int|
                            0 <= j < old(self).stages@.len() && j != i
                                ==> final(self).stages@[j] == old(self).stages@[j])
                    }
            },
    {
        let mut i: usize = 0;
        while i < self.stages.len()
            invariant
                0 <= i <= self.stages.len(),
                forall|j: int| 0 <= j < i ==> self.stages@[j].name@ != name@,
                *self == *old(self),
                old(self).wf(),
            decreases self.stages.len() - i,
        {
            if str_eq(self.stages[i].name.as_str(), name) {
                let mut stage = self.stages.remove(i);
                stage.systems.push(system);
                self.stages.insert(i, stage);
                proof {
                    let pre = old(self).stages@;
                    assert forall|j: int| 0 <= j < pre.len() && j != i implies self.stages@[j]
                        == pre[j] by {
                        if j < i {
                            assert(self.stages@[j] == pre.remove(i as int).insert(i as int, stage)[j]);
                        }
                    }
                    assert(self.stages@[i as int].name == pre[i as int].name);
                    assert(self.stages@[i as int].systems@ == pre[i as int].systems@.push(system));
                    assert forall|p: int, q: int|
                        0 <= p < q < self.stages@.len() implies self.stages@[p].name@
                        != self.stages@[q].name@ by {
                        assert(pre[p].name@ != pre[q].name@);
                        assert(self.stages@[p].name == pre[p].name);
                        assert(self.stages@[q].name == pre[q].name);
                    }
                }
                return Ok(());
            }
            i = i + 1;
        }
        let owned = name.to_string();
        Err(BuildError::UnknownStage { name: owned })
    }

    /// Names and sizes of all stages, in order.
    pub fn summaries(&self) -> (v: Vec<StageSummary>)
        ensures
            v@.len() == self.stages@.len(),
            forall|i: int|
                0 <= i < v@.len() ==> v@[i].name@ == self.stages@[i].name@ && v@[i].system_count
                    == self.stages@[i].systems@.len(),
    {
        let mut out: Vec<StageSummary> = Vec::new();
        let mut i: usize = 0;
        while i < self.stages.len()
            invariant
                0 <= i <= self.stages.len(),
                out@.len() == i,
                forall|j: int|
                    0 <= j < i ==> out@[j].name@ == self.stages@[j].name@ && out@[j].system_count
                        == self.stages@[j].systems@.len(),
            decreases self.stages.len() - i,
        {
            let name = clone_string(&self.stages[i].name);
            let system_count = self.stages[i].systems.len();
            out.push(StageSummary { name, system_count });
            i = i + 1;
        }
        out
    }

    /// Concatenates all stages in insertion order into one ordered system
    /// list.
    pub fn assemble(self) -> (v: Vec<WorkloadSystem>)
        ensures
            v@ == flat_systems(self.stages@),
    {
        let ghost orig = self.stages@;
        let mut rest = self.stages;
        let mut out: Vec<WorkloadSystem> = Vec::new();
        let ghost mut i: int = 0;
        while rest.len() > 0
            invariant
                0 <= i <= orig.len(),
                rest@ == orig.skip(i),
                out@ == flat_systems(orig.take(i)),
            decreases rest.len(),
        {
            let mut stage = rest.remove(0);
            assert(stage == orig[i]);
            assert(rest@ =~= orig.skip(i + 1));
            out.append(&mut stage.systems);
            proof {
                assert(orig.take(i + 1).drop_last() =~= orig.take(i));
                assert(orig.take(i + 1).last() == orig[i]);
                i = i + 1;
            }
        }
        assert(orig.skip(i).len() == 0);
        assert(i == orig.len());
        assert(orig.take(i) =~= orig);
        out
    }
}

} // verus!
