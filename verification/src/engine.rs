use vstd::prelude::*;

use shipyard::World;
use shipyard::WorkloadSystem;
use shipyard::WorkloadBuilder;
use shipyard::IntoWorkloadSystem;
use shipyard::UniqueViewMut;
use shipyard::ViewMut;
use shipyard::info::WorkloadInfo;

verus! {

// ---------------------------------------------------------------------------
// Declarations of the engine's types. Each is opaque here: the library only
// carries values of them through and hands them back to the engine.
// ---------------------------------------------------------------------------

/// shipyard's entity/singleton store. The builder installs singletons,
/// flips storages into tracking mode, and installs the final workload here.
#[verifier::external_type_specification]
#[verifier::external_body]
pub struct ExWorld(World);

/// One schedulable unit of work, fully opaque: the library only sequences
/// and labels these, never inspects their internals.
#[verifier::external_type_specification]
#[verifier::external_body]
pub struct ExWorkloadSystem(WorkloadSystem);

/// shipyard's accumulator for one named workload under construction.
#[verifier::external_type_specification]
#[verifier::external_body]
pub struct ExWorkloadBuilder(WorkloadBuilder);

/// Exclusive access to one component storage, used only by reset systems
/// and to flip a storage into tracking mode.
#[verifier::external_type_specification]
#[verifier::external_body]
#[verifier::reject_recursive_types(T)]
pub struct ExViewMut<'a, T>(ViewMut<'a, T>);

/// shipyard's report on an installed workload (batches, borrow conflicts).
#[verifier::external_type_specification]
#[verifier::external_body]
pub struct ExWorkloadInfo(WorkloadInfo);

// ---------------------------------------------------------------------------
// Trusted wrappers around the engine calls the builder relies on.
// ---------------------------------------------------------------------------

/// Relies on shipyard's `World::default`: a fresh, empty store.
#[verifier::external_body]
pub fn world_new() -> World {
    World::default()
}

/// Relies on shipyard's `World::add_unique`: installs `component` as the
/// single value of its type in the store; when a value of that type is
/// already there, the store keeps the existing one, so the builder first
/// tries to replace through `world_replace_unique`. Returns whether the
/// store accepted the call (it refuses only while its storages are
/// exclusively borrowed elsewhere).
#[verifier::external_body]
pub(crate) fn world_add_unique<T: 'static + Send + Sync>(world: &World, component: T) -> bool {
    world.add_unique(component).is_ok()
}

/// Relies on shipyard's `World::borrow::<UniqueViewMut>` and the view's
/// `DerefMut`: when a singleton of the type is already stored, assigns
/// `component` over it and returns `Ok`, so the value registered last is
/// the one that wins. Hands `component` back when there is no such
/// singleton yet (or its storage cannot be borrowed, which the build
/// phase's single-writer discipline rules out while a value exists).
#[verifier::external_body]
pub(crate) fn world_replace_unique<T: 'static + Send + Sync>(world: &World, component: T) -> Result<
    (),
    T,
> {
    match world.borrow::<UniqueViewMut<'_, T>>() {
        Ok(mut existing) => {
            *existing = component;
            Ok(())
        }
        Err(_) => Err(component),
    }
}

/// Relies on shipyard's `World::borrow`: exclusive access to `T`'s
/// storage, which the store creates empty on first access; `None` while
/// the storage is already exclusively borrowed elsewhere.
#[verifier::external_body]
pub(crate) fn world_borrow_storage<'s, T: 'static + Send + Sync>(world: &'s World) -> Option<
    ViewMut<'s, T>,
> {
    world.borrow::<ViewMut<'s, T>>().ok()
}

/// Relies on shipyard's `SparseSet::track_all`: switches the storage into
/// tracking mode, so it begins recording per-record
/// insert/modify/remove/delete flags.
#[verifier::external_body]
pub(crate) fn storage_track_all<T: 'static + Send + Sync>(vm: &mut ViewMut<'_, T>) {
    vm.track_all();
}

/// Relies on shipyard's `SparseSet::clear_all_inserted_and_modified`,
/// guarded on `is_tracking_insertion`/`is_tracking_modification`: clears
/// every insertion/modification flag when the storage tracks either, and
/// does nothing otherwise — the engine's own clear panics on a storage
/// that tracks neither, so the guard keeps this call total. On storages
/// the library schedules resets for, the guard never bites: they were
/// switched to full tracking first.
#[verifier::external_body]
pub(crate) fn storage_clear_inserted_and_modified<T: 'static + Send + Sync>(vm: &mut ViewMut<'_, T>) {
    if vm.is_tracking_insertion() || vm.is_tracking_modification() {
        vm.clear_all_inserted_and_modified();
    }
}

/// Relies on shipyard's `SparseSet::take_removed_and_deleted`, guarded on
/// `is_tracking_removal`/`is_tracking_deletion`: drains the storage's
/// removal and deletion records (discarding them) when the storage tracks
/// either, and does nothing otherwise — the engine's own drain panics on
/// a storage that tracks neither, so the guard keeps this call total.
#[verifier::external_body]
pub(crate) fn storage_take_removed_and_deleted<T: 'static + Send + Sync>(vm: &mut ViewMut<'_, T>) {
    if vm.is_tracking_removal() || vm.is_tracking_deletion() {
        let _ = vm.take_removed_and_deleted();
    }
}

/// The reset system scheduled once for each tracked storage type: clears
/// all recorded insertion/modification markers and drains the deletion and
/// removal records for that storage.
pub fn reset_update_pack<T: 'static + Send + Sync>(vm: ViewMut<'_, T>) {
    let mut vm = vm;
    storage_clear_inserted_and_modified::<T>(&mut vm);
    storage_take_removed_and_deleted::<T>(&mut vm);
}

/// Relies on shipyard's `IntoWorkloadSystem::into_workload_system`: wraps
/// `reset_update_pack::<T>` as a schedulable system. For a one-view system
/// the conversion cannot report an invalid borrow set, but the error case
/// is surfaced rather than unwrapped.
#[verifier::external_body]
pub(crate) fn make_reset_system<T: 'static + Send + Sync>() -> Option<WorkloadSystem> {
    IntoWorkloadSystem::into_workload_system(reset_update_pack::<T> as fn(ViewMut<'_, T>)).ok()
}

/// The ordered system sequence a workload builder has accumulated so far:
/// what shipyard's `add_to_world` will install, in order.
pub uninterp spec fn workload_builder_systems(wb: WorkloadBuilder) -> Seq<WorkloadSystem>;

/// Relies on shipyard's `WorkloadBuilder::new`: an empty workload under the
/// given name, holding no systems yet.
#[verifier::external_body]
pub(crate) fn workload_builder_new(name: String) -> (wb: WorkloadBuilder)
    ensures
        workload_builder_systems(wb) == Seq::<WorkloadSystem>::empty(),
{
    WorkloadBuilder::new(name)
}

/// Relies on shipyard's `WorkloadBuilder::with_system`: appends one system
/// to the end of the workload under construction, keeping order.
#[verifier::external_body]
pub(crate) fn workload_builder_with_system(wb: &mut WorkloadBuilder, system: WorkloadSystem)
    ensures
        workload_builder_systems(*final(wb)) == workload_builder_systems(*old(wb)).push(system),
{
    wb.with_system(system);
}

/// Relies on shipyard's `WorkloadBuilder::add_to_world`: installs exactly
/// the accumulated systems, `workload_builder_systems(*old(wb))`, in that
/// order, into the store under the builder's name, and reports their
/// batches; `None` when the engine refuses it (its scheduler is borrowed
/// elsewhere, or the name is already taken). The store itself is opaque
/// here, so what was installed is recorded by the caller, not stated of
/// the store.
#[verifier::external_body]
pub(crate) fn workload_builder_add_to_world(wb: &mut WorkloadBuilder, world: &World) -> Option<WorkloadInfo> {
    wb.add_to_world(world).ok()
}

/// Relies on shipyard's `World::run_workload`: runs a previously installed
/// workload by name. Returns whether it ran to completion: `false` when the
/// name is unknown or a system inside it failed.
#[verifier::external_body]
pub(crate) fn world_run_workload(world: &World, name: &String) -> bool {
    world.run_workload(name.as_str()).is_ok()
}

} // verus!
