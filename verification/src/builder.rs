use vstd::prelude::*;

use shipyard::WorkloadSystem;
use shipyard::info::WorkloadInfo;

use crate::deps::DependencyTracker;
use crate::deps::ProviderEntry;
use crate::deps::compute_unmet;
use crate::deps::compute_warn_keys;
use crate::deps::has_added_key;
use crate::deps::has_name_key;
use crate::deps::unmet_spec;
use crate::deps::warn_keys;
use crate::engine::make_reset_system;
use crate::engine::world_add_unique;
use crate::engine::world_new;
use crate::engine::world_replace_unique;
use crate::engine::world_run_workload;
use crate::engine::storage_track_all;
use crate::engine::world_borrow_storage;
use crate::engine::workload_builder_add_to_world;
use crate::engine::workload_builder_new;
use crate::engine::workload_builder_systems;
use crate::engine::workload_builder_with_system;
use crate::errors::BuildError;
use crate::key::TypeKey;
use crate::path::Path;
use crate::stages::StageAssembler;
use crate::stages::StageSummary;
use crate::stages::flat_systems;
use crate::stages::has_stage;
use crate::tracking::TrackedEntry;
use crate::tracking::TrackedRegistrar;
use crate::tracking::enable_spec;
use crate::tracking::has_tracked_key;

verus! {

/// Name of the stage that ordinary systems are registered into.
pub const DEFAULT_STAGE: &'static str = "default";

/// The shared store that the builder configures: it owns the singletons,
/// the component storages, and the installed workloads.
pub struct App {
    pub world: shipyard::World,
}

impl App {
    /// A fresh application around an empty store.
    pub fn new() -> App {
        App { world: world_new() }
    }
}

/// A unit of functionality that registers systems, singletons, and
/// dependency declarations into a shared builder; it may itself add nested
/// plugins. Invoked exactly once per distinct plugin key per build.
///
/// Implementations work through the builder's public methods and hand
/// their errors on unchanged; the contract here records what every such
/// implementation gets for free: the builder stays well-formed, the
/// nesting chain is left as found, everything already registered is
/// retained, and the chains inside a duplicate or cycle error always
/// extend the chain the implementation was called at (the builder's own
/// methods put at least the open chain into those errors).
pub trait Plugin {
    fn build(&self, app: &mut AppBuilder<'_>) -> (r: Result<(), BuildError>)
        requires
            old(app).wf(),
        ensures
            final(app).wf(),
            final(app).current@ == old(app).current@,
            retains(*old(app), *final(app)),
            r matches Err(BuildError::DuplicatePlugin { current: c, .. }) ==> c@.len() >= old(
                app,
            ).current@.len(),
            r matches Err(BuildError::PluginCycle { path: p, .. }) ==> p@.len() > old(
                app,
            ).current@.len(),
    ;
}

/// Configures an [`App`] using the builder pattern: plugins, systems,
/// singletons and dependency declarations go in; one validated, ordered
/// workload comes out of [`AppBuilder::finish`].
pub struct AppBuilder<'a> {
    pub app: &'a App,
    /// Named, ordered system buckets; the default stage exists from the
    /// start.
    pub stages: StageAssembler,
    /// Reset systems scheduled by the tracked-storage switch, one per
    /// tracked type, in switch order.
    pub tracking_resets: Vec<WorkloadSystem>,
    /// Explicitly registered reset systems, guaranteed to run last.
    pub resets: Vec<WorkloadSystem>,
    /// Provider / requirement / added-plugin bookkeeping.
    pub deps: DependencyTracker,
    /// The currently-active plugin nesting chain.
    pub current: Path,
    /// Which storages have been switched into change-tracking mode.
    pub tracking: TrackedRegistrar,
}

/// Everything registered in `pre` is still present, unchanged and in
/// place, in `post`: the record lists and reset lists only grow at the
/// end, stages keep their names, and each stage's systems only grow at
/// the end. The nesting chain is not covered here: it is restored around
/// a plugin's build, not grown.
pub open spec fn retains(pre: AppBuilder<'_>, post: AppBuilder<'_>) -> bool {
    &&& pre.deps.names@.len() <= post.deps.names@.len()
    &&& post.deps.names@.take(pre.deps.names@.len() as int) == pre.deps.names@
    &&& pre.deps.provided@.len() <= post.deps.provided@.len()
    &&& post.deps.provided@.take(pre.deps.provided@.len() as int) == pre.deps.provided@
    &&& pre.deps.required@.len() <= post.deps.required@.len()
    &&& post.deps.required@.take(pre.deps.required@.len() as int) == pre.deps.required@
    &&& pre.deps.added@.len() <= post.deps.added@.len()
    &&& post.deps.added@.take(pre.deps.added@.len() as int) == pre.deps.added@
    &&& pre.stages.stages@.len() <= post.stages.stages@.len()
    &&& (forall|i: int|
        0 <= i < pre.stages.stages@.len() ==> {
            &&& post.stages.stages@[i].name == pre.stages.stages@[i].name
            &&& pre.stages.stages@[i].systems@.len() <= post.stages.stages@[i].systems@.len()
            &&& post.stages.stages@[i].systems@.take(pre.stages.stages@[i].systems@.len() as int)
                == pre.stages.stages@[i].systems@
        })
    &&& pre.tracking_resets@.len() <= post.tracking_resets@.len()
    &&& post.tracking_resets@.take(pre.tracking_resets@.len() as int) == pre.tracking_resets@
    &&& pre.resets@.len() <= post.resets@.len()
    &&& post.resets@.take(pre.resets@.len() as int) == pre.resets@
    &&& pre.tracking.entries@.len() <= post.tracking.entries@.len()
    &&& post.tracking.entries@.take(pre.tracking.entries@.len() as int) == pre.tracking.entries@
}

/// Retention holds from any state to itself.
pub proof fn lemma_retains_reflexive(b: AppBuilder<'_>)
    ensures
        retains(b, b),
{
    assert(b.deps.names@.take(b.deps.names@.len() as int) =~= b.deps.names@);
    assert(b.deps.provided@.take(b.deps.provided@.len() as int) =~= b.deps.provided@);
    assert(b.deps.required@.take(b.deps.required@.len() as int) =~= b.deps.required@);
    assert(b.deps.added@.take(b.deps.added@.len() as int) =~= b.deps.added@);
    assert forall|i: int| 0 <= i < b.stages.stages@.len() implies b.stages.stages@[i].systems@.take(
        b.stages.stages@[i].systems@.len() as int,
    ) == b.stages.stages@[i].systems@ by {
        assert(b.stages.stages@[i].systems@.take(b.stages.stages@[i].systems@.len() as int)
            =~= b.stages.stages@[i].systems@);
    }
    assert(b.tracking_resets@.take(b.tracking_resets@.len() as int) =~= b.tracking_resets@);
    assert(b.resets@.take(b.resets@.len() as int) =~= b.resets@);
    assert(b.tracking.entries@.take(b.tracking.entries@.len() as int) =~= b.tracking.entries@);
}

/// A prefix of a prefix is a prefix: if `a` is what `b` starts with and
/// `b` is what `c` starts with, then `a` is what `c` starts with.
pub proof fn lemma_seq_prefix_trans<A>(a: Seq<A>, b: Seq<A>, c: Seq<A>)
    requires
        a.len() <= b.len(),
        b.len() <= c.len(),
        b.take(a.len() as int) == a,
        c.take(b.len() as int) == b,
    ensures
        c.take(a.len() as int) == a,
{
    assert forall|i: int| 0 <= i < a.len() implies c.take(a.len() as int)[i] == a[i] by {
        assert(b.take(a.len() as int)[i] == a[i]);
        assert(c.take(b.len() as int)[i] == b[i]);
    }
    assert(c.take(a.len() as int) =~= a);
}

/// The ordered system sequence that finish installs: all stage systems in
/// stage order, then the tracked-storage reset systems, then the
/// explicitly registered reset systems.
pub open spec fn workload_plan(b: AppBuilder<'_>) -> Seq<WorkloadSystem> {
    flat_systems(b.stages.stages@) + b.tracking_resets@ + b.resets@
}

/// Diagnostic report handed back by finish: unique provenance, stage
/// contents, tracking bookkeeping, and the engine's own workload report.
pub struct AppBuildInfo {
    /// Every singleton registration, in registration order.
    pub uniques: Vec<ProviderEntry>,
    /// Keys with more than one provider registration, once each: the
    /// value registered last is the one held at startup.
    pub multi_provider_keys: Vec<TypeKey>,
    /// Name and size of each stage, in order.
    pub stage_summaries: Vec<StageSummary>,
    /// Every tracked-storage request, in request order.
    pub tracking_entries: Vec<TrackedEntry>,
    /// How many tracked-storage reset systems the workload ends with.
    pub tracking_reset_count: usize,
    /// How many explicitly registered reset systems follow those.
    pub explicit_reset_count: usize,
    /// The engine's report on the installed workload.
    pub engine_info: WorkloadInfo,
}

/// An installed, runnable workload, referenced by name.
pub struct AppWorkload {
    pub name: String,
    /// The ordered system sequence the engine's workload builder held when
    /// this workload was installed: all stage systems in stage order, then
    /// the tracked-storage reset systems, then the explicit reset systems.
    pub installed: Ghost<Seq<WorkloadSystem>>,
}

impl AppWorkload {
    /// Runs the installed workload against the store. Whether it succeeds
    /// is the engine's to decide: `false` when the name is unknown there
    /// or a system inside it failed.
    pub fn run(&self, app: &App) -> bool {
        world_run_workload(&app.world, &self.name)
    }
}

impl<'a> AppBuilder<'a> {
    /// All of the builder's internal invariants: the nesting chain holds
    /// no duplicates, added plugins are recorded at most once and never
    /// while still open on the chain, stage names are unique, and the
    /// default stage exists.
    pub open spec fn wf(self) -> bool {
        &&& self.current.wf()
        &&& self.deps.wf()
        &&& self.stages.wf()
        &&& has_stage(self.stages.stages@, DEFAULT_STAGE@)
        &&& forall|k: TypeKey|
            self.current@.contains(k) ==> !has_added_key(self.deps.added@, k)
    }

    /// A builder with no stages at all; [`AppBuilder::new`] seeds the
    /// default stage.
    fn empty(app: &App) -> (b: AppBuilder<'_>)
        ensures
            b.app == app,
            b.stages.stages@ == Seq::<crate::stages::Stage>::empty(),
            b.stages.wf(),
            b.tracking_resets@ == Seq::<WorkloadSystem>::empty(),
            b.resets@ == Seq::<WorkloadSystem>::empty(),
            b.deps.names@.len() == 0,
            b.deps.provided@.len() == 0,
            b.deps.required@.len() == 0,
            b.deps.added@.len() == 0,
            b.deps.wf(),
            b.current@ == Seq::<TypeKey>::empty(),
            b.current.wf(),
            b.tracking.entries@ == Seq::<TrackedEntry>::empty(),
    {
        AppBuilder {
            app,
            stages: StageAssembler::new(),
            tracking_resets: Vec::new(),
            resets: Vec::new(),
            deps: DependencyTracker::new(),
            current: Path::new(),
            tracking: TrackedRegistrar::new(),
        }
    }

    /// A fresh builder over `app`, with the default stage already seeded
    /// and everything else empty.
    pub fn new(app: &App) -> (b: AppBuilder<'_>)
        ensures
            b.wf(),
            b.app == app,
            b.stages.stages@.len() == 1,
            b.stages.stages@[0].name@ == DEFAULT_STAGE@,
            b.stages.stages@[0].systems@ == Seq::<WorkloadSystem>::empty(),
            b.tracking_resets@ == Seq::<WorkloadSystem>::empty(),
            b.resets@ == Seq::<WorkloadSystem>::empty(),
            b.deps.names@.len() == 0,
            b.deps.provided@.len() == 0,
            b.deps.required@.len() == 0,
            b.deps.added@.len() == 0,
            b.current@ == Seq::<TypeKey>::empty(),
            b.tracking.entries@ == Seq::<TrackedEntry>::empty(),
    {
        let mut b = AppBuilder::empty(app);
        let name = DEFAULT_STAGE.to_string();
        let seeded = b.stages.add_stage(name);
        proof {
            assert(seeded is Ok);
            assert(b.stages.stages@[0].name@ == DEFAULT_STAGE@);
        }
        b
    }

    /// Stores `component` as the singleton of its keyed type in the shared
    /// store, overwriting any previous value of that type — the value
    /// registered last is the one that wins at startup — and records the
    /// current nesting as one more provider for the key; repeated
    /// providers are reported as a warning at finish. Refused only when
    /// the store cannot be borrowed; nothing is recorded then.
    pub fn add_unique<T: 'static + Send + Sync>(
        &mut self,
        key: TypeKey,
        name: &str,
        component: T,
    ) -> (r: Result<(), BuildError>)
        requires
            old(self).wf(),
        ensures
            final(self).wf(),
            r matches Ok(u) ==> {
                &&& u == ()
                &&& final(self).deps.provided@.len() == old(self).deps.provided@.len() + 1
                &&& final(self).deps.provided@.take(old(self).deps.provided@.len() as int)
                    == old(self).deps.provided@
                &&& final(self).deps.provided@.last().key == key
                &&& final(self).deps.provided@.last().name@ == name@
                &&& final(self).deps.provided@.last().path@ == old(self).current@
                &&& final(self).deps.required@ == old(self).deps.required@
                &&& final(self).deps.added@ == old(self).deps.added@
                &&& has_name_key(final(self).deps.names@, key)
                &&& (has_name_key(old(self).deps.names@, key) ==> final(self).deps.names@ == old(
                    self,
                ).deps.names@)
                &&& (!has_name_key(old(self).deps.names@, key) ==> {
                    &&& final(self).deps.names@.len() == old(self).deps.names@.len() + 1
                    &&& final(self).deps.names@.take(old(self).deps.names@.len() as int) == old(
                        self,
                    ).deps.names@
                    &&& final(self).deps.names@.last().key == key
                    &&& final(self).deps.names@.last().name@ == name@
                })
                &&& final(self).current@ == old(self).current@
                &&& final(self).stages == old(self).stages
                &&& final(self).tracking_resets@ == old(self).tracking_resets@
                &&& final(self).resets@ == old(self).resets@
                &&& final(self).tracking == old(self).tracking
            },
            r matches Err(e) ==> e matches BuildError::EngineRefused && *final(self) == *old(self),
    {
        let app_ref = self.app;
        let component = match world_replace_unique::<T>(&app_ref.world, component) {
            Ok(u) => {
                let snap = self.current.snapshot();
                self.deps.add_unique_provider(key, name, snap);
                return Ok(u);
            }
            Err(back) => back,
        };
        if !world_add_unique::<T>(&app_ref.world, component) {
            return Err(BuildError::EngineRefused);
        }
        let snap = self.current.snapshot();
        self.deps.add_unique_provider(key, name, snap);
        Ok(())
    }

    /// Declares that the current plugin depends on the singleton of the
    /// keyed type, for `reason`. Never validated here: the declaration is
    /// resolved at finish, because a sibling plugin registered later may
    /// still provide it.
    pub fn depends_on_unique(&mut self, key: TypeKey, name: &str, reason: &str)
        requires
            old(self).wf(),
        ensures
            final(self).wf(),
            final(self).deps.required@.len() == old(self).deps.required@.len() + 1,
            final(self).deps.required@.take(old(self).deps.required@.len() as int)
                == old(self).deps.required@,
            final(self).deps.required@.last().key == key,
            final(self).deps.required@.last().name@ == name@,
            final(self).deps.required@.last().path@ == old(self).current@,
            final(self).deps.required@.last().reason@ == reason@,
            final(self).deps.provided@ == old(self).deps.provided@,
            final(self).deps.added@ == old(self).deps.added@,
            has_name_key(final(self).deps.names@, key),
            has_name_key(old(self).deps.names@, key) ==> final(self).deps.names@ == old(
                self,
            ).deps.names@,
            !has_name_key(old(self).deps.names@, key) ==> {
                &&& final(self).deps.names@.len() == old(self).deps.names@.len() + 1
                &&& final(self).deps.names@.take(old(self).deps.names@.len() as int) == old(
                    self,
                ).deps.names@
                &&& final(self).deps.names@.last().key == key
                &&& final(self).deps.names@.last().name@ == name@
            },
            final(self).current == old(self).current,
            final(self).stages == old(self).stages,
            final(self).tracking_resets@ == old(self).tracking_resets@,
            final(self).resets@ == old(self).resets@,
            final(self).tracking == old(self).tracking,
            final(self).app == old(self).app,
    {
        let snap = self.current.snapshot();
        self.deps.add_unique_dependency(key, name, snap, reason);
    }

    /// Declares that the current plugin depends on the keyed plugin having
    /// been added already. Validated immediately: succeeds exactly when
    /// that plugin's build has finished, and fails with
    /// [`BuildError::MissingPluginDependency`] otherwise, citing the
    /// requesting nesting, the dependency's name, and the reason.
    pub fn depends_on_plugin(&mut self, key: TypeKey, name: &str, reason: &str) -> (r: Result<
        (),
        BuildError,
    >)
        requires
            old(self).wf(),
        ensures
            final(self).wf(),
            (r matches Ok(u) && u == ()) <==> has_added_key(old(self).deps.added@, key),
            r matches Err(e) ==> {
                &&& e matches BuildError::MissingPluginDependency {
                    key: k,
                    name: n,
                    requester: rq,
                    reason: rs,
                }
                &&& k == key
                &&& n@ == name@
                &&& rq@ == old(self).current@
                &&& rs@ == reason@
            },
            final(self).deps.provided@ == old(self).deps.provided@,
            final(self).deps.required@ == old(self).deps.required@,
            final(self).deps.added@ == old(self).deps.added@,
            has_name_key(final(self).deps.names@, key),
            has_name_key(old(self).deps.names@, key) ==> final(self).deps.names@ == old(
                self,
            ).deps.names@,
            !has_name_key(old(self).deps.names@, key) ==> {
                &&& final(self).deps.names@.len() == old(self).deps.names@.len() + 1
                &&& final(self).deps.names@.take(old(self).deps.names@.len() as int) == old(
                    self,
                ).deps.names@
                &&& final(self).deps.names@.last().key == key
                &&& final(self).deps.names@.last().name@ == name@
            },
            final(self).current == old(self).current,
            final(self).stages == old(self).stages,
            final(self).tracking_resets@ == old(self).tracking_resets@,
            final(self).resets@ == old(self).resets@,
            final(self).tracking == old(self).tracking,
            final(self).app == old(self).app,
    {
        self.deps.intern(key, name);
        if self.deps.added_contains(key) {
            Ok(())
        } else {
            let requester = self.current.snapshot();
            Err(
                BuildError::MissingPluginDependency {
                    key,
                    name: name.to_string(),
                    requester,
                    reason: reason.to_string(),
                },
            )
        }
    }

    /// Appends `system` to the default stage.
    pub fn add_system(&mut self, system: WorkloadSystem)
        requires
            old(self).wf(),
        ensures
            final(self).wf(),
            final(self).stages.stages@.len() == old(self).stages.stages@.len(),
            exists|i: int|
                {
                    &&& 0 <= i < old(self).stages.stages@.len()
                    &&& old(self).stages.stages@[i].name@ == DEFAULT_STAGE@
                    &&& final(self).stages.stages@[i].systems@
                        == old(self).stages.stages@[i].systems@.push(system)
                    &&& (forall|j: int|
                        0 <= j < old(self).stages.stages@.len() && j != i
                            ==> final(self).stages.stages@[j] == old(self).stages.stages@[j])
                },
            final(self).deps == old(self).deps,
            final(self).current@ == old(self).current@,
            final(self).tracking_resets@ == old(self).tracking_resets@,
            final(self).resets@ == old(self).resets@,
            final(self).tracking == old(self).tracking,
    {
        let r = self.stages.add_system_to_stage(DEFAULT_STAGE, system);
        proof {
            if r is Err {
                assert(has_stage(old(self).stages.stages@, DEFAULT_STAGE@));
                assert(false);
            }
        }
    }

    /// Appends `system` to the explicit reset list: it will run after all
    /// stage systems and after the tracked-storage reset systems.
    pub fn add_reset_system(&mut self, system: WorkloadSystem)
        requires
            old(self).wf(),
        ensures
            final(self).wf(),
            final(self).resets@ == old(self).resets@.push(system),
            final(self).stages == old(self).stages,
            final(self).deps == old(self).deps,
            final(self).current@ == old(self).current@,
            final(self).tracking_resets@ == old(self).tracking_resets@,
            final(self).tracking == old(self).tracking,
    {
        self.resets.push(system);
    }

    /// Switches the keyed storage into change-tracking mode and schedules
    /// exactly one reset system for it — both only on the first request
    /// for the key. Every request, including the first, records one
    /// (path, reason) bookkeeping entry. Refused only when the engine
    /// cannot borrow the storage; nothing is recorded then. A repeated
    /// request never touches the engine and always succeeds.
    pub fn update_pack<T: 'static + Send + Sync>(
        &mut self,
        key: TypeKey,
        name: &str,
        reason: &str,
    ) -> (r: Result<(), BuildError>)
        requires
            old(self).wf(),
        ensures
            final(self).wf(),
            has_tracked_key(old(self).tracking.entries@, key) ==> r matches Ok(_),
            r matches Ok(u) ==> {
                &&& u == ()
                &&& enable_spec(
                    old(self).tracking.entries@,
                    old(self).tracking_resets@,
                    final(self).tracking.entries@,
                    final(self).tracking_resets@,
                    key,
                    name@,
                    old(self).current@,
                    reason@,
                )
            },
            r matches Err(e) ==> {
                &&& e matches BuildError::EngineRefused
                &&& final(self).tracking == old(self).tracking
                &&& final(self).tracking_resets@ == old(self).tracking_resets@
            },
            final(self).deps.provided@ == old(self).deps.provided@,
            final(self).deps.required@ == old(self).deps.required@,
            final(self).deps.added@ == old(self).deps.added@,
            has_name_key(final(self).deps.names@, key),
            has_name_key(old(self).deps.names@, key) ==> final(self).deps.names@ == old(
                self,
            ).deps.names@,
            !has_name_key(old(self).deps.names@, key) ==> {
                &&& final(self).deps.names@.len() == old(self).deps.names@.len() + 1
                &&& final(self).deps.names@.take(old(self).deps.names@.len() as int) == old(
                    self,
                ).deps.names@
                &&& final(self).deps.names@.last().key == key
                &&& final(self).deps.names@.last().name@ == name@
            },
            final(self).current == old(self).current,
            final(self).stages == old(self).stages,
            final(self).resets@ == old(self).resets@,
            final(self).app == old(self).app,
    {
        self.deps.intern(key, name);
        if self.tracking.is_tracked(key) {
            let snap = self.current.snapshot();
            self.tracking.record(key, name, snap, reason);
            Ok(())
        } else {
            let app_ref = self.app;
            match world_borrow_storage::<T>(&app_ref.world) {
                None => return Err(BuildError::EngineRefused),
                Some(mut vm) => storage_track_all::<T>(&mut vm),
            }
            match make_reset_system::<T>() {
                None => Err(BuildError::EngineRefused),
                Some(sys) => {
                    self.tracking_resets.push(sys);
                    let snap = self.current.snapshot();
                    self.tracking.record(key, name, snap, reason);
                    proof {
                        assert(self.tracking_resets@.take(old(self).tracking_resets@.len() as int)
                            =~= old(self).tracking_resets@);
                    }
                    Ok(())
                }
            }
        }
    }

    /// Adds the keyed plugin to the builder, invoking its `build` with
    /// full reentrancy on the same builder. Fails with
    /// [`BuildError::DuplicatePlugin`] when the key was ever added before,
    /// and with [`BuildError::PluginCycle`] when the key is already open
    /// on the nesting chain — in both cases before any side effect of this
    /// attempt. On success the key is recorded as added, under the nesting
    /// chain it was built at.
    pub fn add_plugin<P: Plugin>(&mut self, key: TypeKey, name: &str, plugin: &P) -> (r: Result<
        (),
        BuildError,
    >)
        requires
            old(self).wf(),
        ensures
            final(self).wf(),
            has_added_key(old(self).deps.added@, key) ==> {
                &&& *final(self) == *old(self)
                &&& (r matches Err(BuildError::DuplicatePlugin {
                    key: k,
                    name: n,
                    current: c,
                    previous: p,
                }) && k == key && n@ == name@ && c@ == old(self).current@ && (exists|i: int|
                    0 <= i < old(self).deps.added@.len() && old(self).deps.added@[i].key == key
                        && p@ == old(self).deps.added@[i].path@))
            },
            !has_added_key(old(self).deps.added@, key) && old(self).current@.contains(key) ==> {
                &&& *final(self) == *old(self)
                &&& (r matches Err(BuildError::PluginCycle { key: k, name: n, path: p }) && k == key
                    && n@ == name@ && p@ == old(self).current@.push(key))
            },
            r matches Ok(u) ==> {
                &&& u == ()
                &&& !has_added_key(old(self).deps.added@, key)
                &&& !old(self).current@.contains(key)
                &&& final(self).current@ == old(self).current@
                &&& final(self).deps.added@.len() > 0
                &&& final(self).deps.added@.last().key == key
                &&& final(self).deps.added@.last().path@ == old(self).current@.push(key)
                &&& has_added_key(final(self).deps.added@, key)
            },
            r matches Err(_) ==> final(self).current@ == old(self).current@,
            retains(*old(self), *final(self)),
            (r matches Err(BuildError::DuplicatePlugin { key: k, current: c, .. }) && k == key
                && c@ == old(self).current@) ==> has_added_key(old(self).deps.added@, key),
            (r matches Err(BuildError::PluginCycle { key: k, path: p, .. }) && k == key && p@
                == old(self).current@.push(key)) ==> old(self).current@.contains(key),
            !has_added_key(old(self).deps.added@, key) && !old(self).current@.contains(key) ==> {
                &&& (r matches Err(BuildError::DuplicatePlugin { current: c, .. }) ==> c@.len()
                    > old(self).current@.len())
                &&& (r matches Err(BuildError::PluginCycle { path: p, .. }) ==> p@.len() > old(
                    self,
                ).current@.len() + 1)
            },
    {
        match self.deps.added_path_of(key) {
            Some(previous) => {
                proof {
                    lemma_retains_reflexive(*old(self));
                    assert(has_added_key(old(self).deps.added@, key));
                }
                let current = self.current.snapshot();
                return Err(
                    BuildError::DuplicatePlugin {
                        key,
                        name: name.to_string(),
                        current,
                        previous,
                    },
                );
            }
            None => {}
        }
        if self.current.contains(key) {
            proof {
                lemma_retains_reflexive(*old(self));
            }
            let mut path = self.current.snapshot();
            path.push(key);
            return Err(BuildError::PluginCycle { key, name: name.to_string(), path });
        }
        self.deps.intern(key, name);
        self.current.push(key);
        proof {
            assert forall|k: TypeKey| self.current@.contains(k) implies !has_added_key(
                self.deps.added@,
                k,
            ) by {
                let i = choose|i: int| 0 <= i < self.current@.len() && self.current@[i] == k;
                if i < self.current@.len() - 1 {
                    assert(old(self).current@[i] == k);
                    assert(old(self).current@.contains(k));
                } else {
                    assert(k == key);
                }
            }
        }
        let ghost before_build = *self;
        let built = plugin.build(self);
        match built {
            Err(e) => {
                let ghost after_build = *self;
                self.current.pop();
                proof {
                    assert forall|k: TypeKey| self.current@.contains(k) implies !has_added_key(
                        self.deps.added@,
                        k,
                    ) by {
                        let i = choose|i: int|
                            0 <= i < self.current@.len() && self.current@[i] == k;
                        assert(after_build.current@[i] == k);
                        assert(after_build.current@.contains(k));
                    }
                    let o = *old(self);
                    if has_name_key(o.deps.names@, key) {
                        assert(before_build.deps.names@.take(o.deps.names@.len() as int)
                            =~= o.deps.names@);
                    }
                    lemma_seq_prefix_trans(
                        o.deps.names@,
                        before_build.deps.names@,
                        after_build.deps.names@,
                    );
                    assert(before_build.stages == o.stages);
                    assert forall|i: int| 0 <= i < o.stages.stages@.len() implies {
                        &&& self.stages.stages@[i].name == o.stages.stages@[i].name
                        &&& o.stages.stages@[i].systems@.len()
                            <= self.stages.stages@[i].systems@.len()
                        &&& self.stages.stages@[i].systems@.take(
                            o.stages.stages@[i].systems@.len() as int,
                        ) == o.stages.stages@[i].systems@
                    } by {
                        assert(before_build.stages.stages@[i] == o.stages.stages@[i]);
                        assert(retains(before_build, after_build));
                    }
                    assert(retains(o, *self));
                    assert(before_build.current@.len() == o.current@.len() + 1);
                }
                Err(e)
            }
            Ok(_) => {
                let ghost after_build = *self;
                proof {
                    assert(after_build.current@.last() == key);
                    assert(after_build.current@.contains(key));
                    assert(!has_added_key(after_build.deps.added@, key));
                }
                let snap = self.current.snapshot();
                self.current.pop();
                proof {
                    assert(self.current@ =~= old(self).current@);
                }
                self.deps.record_added(key, snap);
                proof {
                    let added_now = self.deps.added@;
                    assert(added_now.take(after_build.deps.added@.len() as int)
                        == after_build.deps.added@);
                    assert forall|k: TypeKey| self.current@.contains(k) implies !has_added_key(
                        added_now,
                        k,
                    ) by {
                        let i = choose|i: int|
                            0 <= i < self.current@.len() && self.current@[i] == k;
                        assert(old(self).current@[i] == k);
                        assert(old(self).current@.contains(k));
                        assert(k != key);
                        assert(after_build.current@[i] == k);
                        assert(after_build.current@.contains(k));
                        assert(!has_added_key(after_build.deps.added@, k));
                        assert forall|m: int| 0 <= m < added_now.len() implies added_now[m].key
                            != k by {
                            if m < added_now.len() - 1 {
                                assert(added_now[m] == after_build.deps.added@[m]);
                            } else {
                                assert(added_now[m].key == key);
                            }
                        }
                    }
                    let o = *old(self);
                    if has_name_key(o.deps.names@, key) {
                        assert(before_build.deps.names@.take(o.deps.names@.len() as int)
                            =~= o.deps.names@);
                    }
                    lemma_seq_prefix_trans(
                        o.deps.names@,
                        before_build.deps.names@,
                        after_build.deps.names@,
                    );
                    lemma_seq_prefix_trans(o.deps.added@, after_build.deps.added@, added_now);
                    assert(before_build.stages == o.stages);
                    assert forall|i: int| 0 <= i < o.stages.stages@.len() implies {
                        &&& self.stages.stages@[i].name == o.stages.stages@[i].name
                        &&& o.stages.stages@[i].systems@.len()
                            <= self.stages.stages@[i].systems@.len()
                        &&& self.stages.stages@[i].systems@.take(
                            o.stages.stages@[i].systems@.len() as int,
                        ) == o.stages.stages@[i].systems@
                    } by {
                        assert(before_build.stages.stages@[i] == o.stages.stages@[i]);
                        assert(retains(before_build, after_build));
                    }
                    assert(retains(o, *self));
                }
                Ok(())
            }
        }
    }

    /// Validates every recorded singleton dependency against the recorded
    /// providers, assembles the final workload — all stage systems in
    /// stage order, then tracked-storage resets, then explicit resets —
    /// and installs it into the store under the name `update`. Fails with
    /// [`BuildError::UnmetUniqueDependency`] exactly when some declared
    /// singleton dependency has no provider, enumerating every unmet type
    /// with all of its requesters and reasons; to resolve, add the missing
    /// unique or remove the dependency declaration. Alongside the workload
    /// handle it reports unique provenance, multiple-provider warnings,
    /// stage contents and tracking bookkeeping.
    pub fn finish_with_info(self) -> (r: Result<(AppWorkload, AppBuildInfo), BuildError>)
        ensures
            r matches Err(BuildError::UnmetUniqueDependency { unmet }) ==> unmet@ == unmet_spec(
                self.deps.provided@,
                self.deps.required@,
            ) && unmet@.len() > 0,
            unmet_spec(self.deps.provided@, self.deps.required@).len() > 0 ==> r matches Err(
                BuildError::UnmetUniqueDependency { .. },
            ),
            r matches Err(e) ==> (e matches BuildError::UnmetUniqueDependency { .. } || e matches
                BuildError::EngineRefused),
            r matches Err(BuildError::EngineRefused) ==> unmet_spec(
                self.deps.provided@,
                self.deps.required@,
            ).len() == 0,
            r matches Ok(p) ==> {
                &&& unmet_spec(self.deps.provided@, self.deps.required@).len() == 0
                &&& p.0.name@ == "update"@
                &&& p.0.installed@ == workload_plan(self)
                &&& p.1.uniques == self.deps.provided
                &&& p.1.multi_provider_keys@ == warn_keys(self.deps.provided@)
                &&& p.1.stage_summaries@.len() == self.stages.stages@.len()
                &&& (forall|i: int|
                    0 <= i < self.stages.stages@.len() ==> p.1.stage_summaries@[i].name@
                        == self.stages.stages@[i].name@ && p.1.stage_summaries@[i].system_count
                        == self.stages.stages@[i].systems@.len())
                &&& p.1.tracking_entries == self.tracking.entries
                &&& p.1.tracking_reset_count == self.tracking_resets@.len()
                &&& p.1.explicit_reset_count == self.resets@.len()
            },
    {
        let ghost orig = self;
        let AppBuilder { app, stages, tracking_resets, resets, deps, current: _, tracking } = self;
        let multi_provider_keys = compute_warn_keys(&deps.provided);
        let unmet = compute_unmet(&deps.provided, deps.required);
        if unmet.len() > 0 {
            return Err(BuildError::UnmetUniqueDependency { unmet });
        }
        let stage_summaries = stages.summaries();
        let mut all = stages.assemble();
        let mut tracking_resets_moved = tracking_resets;
        let tracking_reset_count = tracking_resets_moved.len();
        let mut resets_moved = resets;
        let explicit_reset_count = resets_moved.len();
        all.append(&mut tracking_resets_moved);
        all.append(&mut resets_moved);
        proof {
            assert(all@ == workload_plan(orig));
        }
        let name = "update".to_string();
        let builder_name = "update".to_string();
        let ghost plan = all@;
        let mut wb = workload_builder_new(builder_name);
        proof {
            assert(workload_builder_systems(wb) + all@ =~= plan);
        }
        while all.len() > 0
            invariant
                workload_builder_systems(wb) + all@ == plan,
            decreases all@.len(),
        {
            let ghost pre_wb = workload_builder_systems(wb);
            let ghost pre_all = all@;
            let system = all.remove(0);
            workload_builder_with_system(&mut wb, system);
            proof {
                assert(workload_builder_systems(wb) + all@ =~= pre_wb + pre_all);
            }
        }
        proof {
            assert(all@.len() == 0);
            assert(workload_builder_systems(wb) =~= workload_builder_systems(wb) + all@);
            assert(workload_builder_systems(wb) == workload_plan(orig));
        }
        let ghost handed = workload_builder_systems(wb);
        match workload_builder_add_to_world(&mut wb, &app.world) {
            None => Err(BuildError::EngineRefused),
            Some(engine_info) => Ok(
                (
                    AppWorkload { name, installed: Ghost(handed) },
                    AppBuildInfo {
                        uniques: deps.provided,
                        multi_provider_keys,
                        stage_summaries,
                        tracking_entries: tracking.entries,
                        tracking_reset_count,
                        explicit_reset_count,
                        engine_info,
                    },
                ),
            ),
        }
    }

    /// [`AppBuilder::finish_with_info`] without the report: validates,
    /// assembles and installs the workload, returning only its handle.
    pub fn finish(self) -> (r: Result<AppWorkload, BuildError>)
        ensures
            r matches Err(BuildError::UnmetUniqueDependency { unmet }) ==> unmet@ == unmet_spec(
                self.deps.provided@,
                self.deps.required@,
            ) && unmet@.len() > 0,
            unmet_spec(self.deps.provided@, self.deps.required@).len() > 0 ==> r matches Err(
                BuildError::UnmetUniqueDependency { .. },
            ),
            r matches Err(e) ==> (e matches BuildError::UnmetUniqueDependency { .. } || e matches
                BuildError::EngineRefused),
            r matches Ok(w) ==> w.name@ == "update"@ && w.installed@ == workload_plan(self)
                && unmet_spec(self.deps.provided@, self.deps.required@).len() == 0,
    {
        match self.finish_with_info() {
            Ok((workload, _)) => Ok(workload),
            Err(e) => Err(e),
        }
    }
}

/// Given one stage with systems [a, b] and a second stage with systems
/// [c], the finished workload plan is [a, b, c] followed by the
/// tracked-storage reset systems and then the explicit reset systems:
/// intra-stage and inter-stage order are both kept, and every reset comes
/// after every stage system.
pub proof fn lemma_workload_order(b: AppBuilder<'_>)
    requires
        b.stages.stages@.len() == 2,
    ensures
        workload_plan(b) == b.stages.stages@[0].systems@ + b.stages.stages@[1].systems@
            + b.tracking_resets@ + b.resets@,
{
    let ss = b.stages.stages@;
    assert(ss.drop_last().drop_last() =~= Seq::<crate::stages::Stage>::empty());
    assert(flat_systems(ss.drop_last().drop_last()) == Seq::<WorkloadSystem>::empty());
    assert(ss.drop_last().last() == ss[0]);
    assert(ss.last() == ss[1]);
    assert(flat_systems(ss) == flat_systems(ss.drop_last()) + ss[1].systems@);
    assert(flat_systems(ss.drop_last()) == Seq::<WorkloadSystem>::empty() + ss[0].systems@);
    assert(workload_plan(b) =~= ss[0].systems@ + ss[1].systems@ + b.tracking_resets@ + b.resets@);
}

} // verus!
