use shipyard_app::App;
use shipyard_app::AppBuilder;
use shipyard_app::BuildError;
use shipyard_app::Plugin;
use shipyard_app::TypeKey;

use shipyard::IntoWorkloadSystem;
use shipyard::UniqueView;
use shipyard::UniqueViewMut;
use shipyard::ViewMut;

const K_PHYSICS: u64 = 1;
const K_SPAWNER: u64 = 2;
const K_GRAVITY: u64 = 3;
const K_CYCLE_A: u64 = 4;
const K_CYCLE_B: u64 = 5;
const K_CHILD: u64 = 6;
const K_PARENT_A: u64 = 7;
const K_PARENT_B: u64 = 8;

struct Gravity(f32);

struct Order(String);

fn sys_a(mut o: UniqueViewMut<Order>) {
    o.0.push('a');
}

fn sys_b(mut o: UniqueViewMut<Order>) {
    o.0.push('b');
}

fn sys_r(mut o: UniqueViewMut<Order>) {
    o.0.push('r');
}

fn apply_gravity(_g: UniqueView<Gravity>) {}

/// A plugin that provides the Gravity singleton and one system.
struct PhysicsPlugin;

impl Plugin for PhysicsPlugin {
    fn build(&self, app: &mut AppBuilder<'_>) -> Result<(), BuildError> {
        app.add_unique(TypeKey::new(K_GRAVITY), "Gravity", Gravity(9.8))?;
        app.add_system(apply_gravity.into_workload_system().unwrap());
        Ok(())
    }
}

/// A plugin that declares a unique dependency and then adds its provider.
struct SpawnerPlugin;

impl Plugin for SpawnerPlugin {
    fn build(&self, app: &mut AppBuilder<'_>) -> Result<(), BuildError> {
        app.depends_on_unique(TypeKey::new(K_GRAVITY), "Gravity", "needs gravity constant");
        app.add_plugin(TypeKey::new(K_PHYSICS), "Physics", &PhysicsPlugin)?;
        app.depends_on_plugin(TypeKey::new(K_PHYSICS), "Physics", "spawns under gravity")?;
        Ok(())
    }
}

/// A plugin that declares the dependency but never adds the provider.
struct LonelySpawnerPlugin;

impl Plugin for LonelySpawnerPlugin {
    fn build(&self, app: &mut AppBuilder<'_>) -> Result<(), BuildError> {
        app.depends_on_unique(TypeKey::new(K_GRAVITY), "Gravity", "needs gravity constant");
        Ok(())
    }
}

struct CycleAPlugin;

impl Plugin for CycleAPlugin {
    fn build(&self, app: &mut AppBuilder<'_>) -> Result<(), BuildError> {
        app.add_plugin(TypeKey::new(K_CYCLE_B), "CycleB", &CycleBPlugin)?;
        Ok(())
    }
}

struct CycleBPlugin;

impl Plugin for CycleBPlugin {
    fn build(&self, app: &mut AppBuilder<'_>) -> Result<(), BuildError> {
        app.add_plugin(TypeKey::new(K_CYCLE_A), "CycleA", &CycleAPlugin)?;
        Ok(())
    }
}

/// A plugin with no registrations at all.
struct ChildPlugin;

impl Plugin for ChildPlugin {
    fn build(&self, _app: &mut AppBuilder<'_>) -> Result<(), BuildError> {
        Ok(())
    }
}

struct ParentAPlugin;

impl Plugin for ParentAPlugin {
    fn build(&self, app: &mut AppBuilder<'_>) -> Result<(), BuildError> {
        app.add_plugin(TypeKey::new(K_CHILD), "Child", &ChildPlugin)?;
        Ok(())
    }
}

struct ParentBPlugin;

impl Plugin for ParentBPlugin {
    fn build(&self, app: &mut AppBuilder<'_>) -> Result<(), BuildError> {
        app.add_plugin(TypeKey::new(K_CHILD), "Child", &ChildPlugin)?;
        Ok(())
    }
}

#[test]
fn duplicate_plugin_direct() {
    let app = App::new();
    let mut b = AppBuilder::new(&app);
    b.add_plugin(TypeKey::new(K_PHYSICS), "Physics", &PhysicsPlugin)
        .unwrap();
    let before_added = b.deps.added.len();
    let r = b.add_plugin(TypeKey::new(K_PHYSICS), "Physics", &PhysicsPlugin);
    match r {
        Err(BuildError::DuplicatePlugin {
            key,
            name,
            current,
            previous,
        }) => {
            assert_eq!(key, TypeKey::new(K_PHYSICS));
            assert_eq!(name, "Physics");
            assert!(current.is_empty());
            assert_eq!(previous, vec![TypeKey::new(K_PHYSICS)]);
        }
        other => panic!("expected DuplicatePlugin, got {:?}", other.err()),
    }
    // No side effect of the rejected second attempt.
    assert_eq!(b.deps.added.len(), before_added);
}

#[test]
fn duplicate_plugin_via_two_parents() {
    let app = App::new();
    let mut b = AppBuilder::new(&app);
    b.add_plugin(TypeKey::new(K_PARENT_A), "ParentA", &ParentAPlugin)
        .unwrap();
    let r = b.add_plugin(TypeKey::new(K_PARENT_B), "ParentB", &ParentBPlugin);
    match r {
        Err(BuildError::DuplicatePlugin {
            key,
            current,
            previous,
            ..
        }) => {
            assert_eq!(key, TypeKey::new(K_CHILD));
            assert_eq!(current, vec![TypeKey::new(K_PARENT_B)]);
            assert_eq!(
                previous,
                vec![TypeKey::new(K_PARENT_A), TypeKey::new(K_CHILD)]
            );
        }
        other => panic!("expected DuplicatePlugin, got {:?}", other.err()),
    }
}

#[test]
fn plugin_cycle_reports_nesting() {
    let app = App::new();
    let mut b = AppBuilder::new(&app);
    let r = b.add_plugin(TypeKey::new(K_CYCLE_A), "CycleA", &CycleAPlugin);
    match r {
        Err(BuildError::PluginCycle { key, name, path }) => {
            assert_eq!(key, TypeKey::new(K_CYCLE_A));
            assert_eq!(name, "CycleA");
            assert_eq!(
                path,
                vec![
                    TypeKey::new(K_CYCLE_A),
                    TypeKey::new(K_CYCLE_B),
                    TypeKey::new(K_CYCLE_A),
                ]
            );
        }
        other => panic!("expected PluginCycle, got {:?}", other.err()),
    }
}

#[test]
fn depends_on_plugin_before_added_fails() {
    let app = App::new();
    let mut b = AppBuilder::new(&app);
    let r = b.depends_on_plugin(TypeKey::new(K_PHYSICS), "Physics", "spawns under gravity");
    match r {
        Err(BuildError::MissingPluginDependency {
            key,
            name,
            requester,
            reason,
        }) => {
            assert_eq!(key, TypeKey::new(K_PHYSICS));
            assert_eq!(name, "Physics");
            assert!(requester.is_empty());
            assert_eq!(reason, "spawns under gravity");
        }
        other => panic!("expected MissingPluginDependency, got {:?}", other.err()),
    }
}

#[test]
fn depends_on_plugin_after_added_succeeds() {
    let app = App::new();
    let mut b = AppBuilder::new(&app);
    b.add_plugin(TypeKey::new(K_PHYSICS), "Physics", &PhysicsPlugin)
        .unwrap();
    b.depends_on_plugin(TypeKey::new(K_PHYSICS), "Physics", "spawns under gravity")
        .unwrap();
}

#[test]
fn gravity_scenario_succeeds_with_sole_provider() {
    let app = App::new();
    let mut b = AppBuilder::new(&app);
    b.add_plugin(TypeKey::new(K_SPAWNER), "Spawner", &SpawnerPlugin)
        .unwrap();
    let (_workload, info) = b.finish_with_info().unwrap();
    let gravity_providers: Vec<_> = info
        .uniques
        .iter()
        .filter(|p| p.key == TypeKey::new(K_GRAVITY))
        .collect();
    assert_eq!(gravity_providers.len(), 1);
    assert_eq!(gravity_providers[0].name, "Gravity");
    assert_eq!(
        gravity_providers[0].path,
        vec![TypeKey::new(K_SPAWNER), TypeKey::new(K_PHYSICS)]
    );
    assert!(info.multi_provider_keys.is_empty());
    // The system registered inside the plugin's build reached the stage.
    assert_eq!(info.stage_summaries[0].system_count, 1);
    // The unique really reached the store.
    let g = app.world.borrow::<UniqueView<Gravity>>().unwrap();
    assert_eq!(g.0, 9.8);
}

#[test]
fn gravity_scenario_reversed_fails_with_unmet_dependency() {
    let app = App::new();
    let mut b = AppBuilder::new(&app);
    b.add_plugin(TypeKey::new(K_SPAWNER), "Spawner", &LonelySpawnerPlugin)
        .unwrap();
    let r = b.finish();
    match r {
        Err(BuildError::UnmetUniqueDependency { unmet }) => {
            assert_eq!(unmet.len(), 1);
            assert_eq!(unmet[0].key, TypeKey::new(K_GRAVITY));
            assert_eq!(unmet[0].name, "Gravity");
            assert_eq!(unmet[0].path, vec![TypeKey::new(K_SPAWNER)]);
            assert_eq!(unmet[0].reason, "needs gravity constant");
        }
        other => panic!("expected UnmetUniqueDependency, got {:?}", other.err()),
    }
}

#[test]
fn unmet_dependency_lists_every_requester() {
    let app = App::new();
    let mut b = AppBuilder::new(&app);
    b.depends_on_unique(TypeKey::new(K_GRAVITY), "Gravity", "first reason");
    b.depends_on_unique(TypeKey::new(K_GRAVITY), "Gravity", "second reason");
    match b.finish() {
        Err(BuildError::UnmetUniqueDependency { unmet }) => {
            assert_eq!(unmet.len(), 2);
            assert_eq!(unmet[0].reason, "first reason");
            assert_eq!(unmet[1].reason, "second reason");
        }
        other => panic!("expected UnmetUniqueDependency, got {:?}", other.err()),
    }
}

#[test]
fn multiple_providers_warned_once_last_value_wins() {
    let app = App::new();
    let mut b = AppBuilder::new(&app);
    let k = TypeKey::new(K_GRAVITY);
    b.add_unique(k, "Gravity", Gravity(1.0)).unwrap();
    b.add_unique(k, "Gravity", Gravity(2.0)).unwrap();
    b.add_unique(k, "Gravity", Gravity(3.0)).unwrap();
    let (_w, info) = b.finish_with_info().unwrap();
    assert_eq!(info.uniques.len(), 3);
    // One warning per key, however many extra providers there were.
    assert_eq!(info.multi_provider_keys, vec![k]);
    // The value registered last is the one the store holds.
    let g = app.world.borrow::<UniqueView<Gravity>>().unwrap();
    assert_eq!(g.0, 3.0);
}

#[test]
fn finishing_an_empty_builder_installs_an_empty_workload() {
    let app = App::new();
    let b = AppBuilder::new(&app);
    let (workload, info) = b.finish_with_info().unwrap();
    assert_eq!(workload.name, "update");
    assert_eq!(info.stage_summaries.len(), 1);
    assert_eq!(info.stage_summaries[0].system_count, 0);
    assert!(info.uniques.is_empty());
    assert!(workload.run(&app));
}

#[test]
fn workload_runs_systems_in_order_resets_last() {
    let app = App::new();
    let mut b = AppBuilder::new(&app);
    b.add_unique(TypeKey::new(K_GRAVITY), "Order", Order(String::new()))
        .unwrap();
    b.add_system(sys_a.into_workload_system().unwrap());
    b.add_system(sys_b.into_workload_system().unwrap());
    b.add_reset_system(sys_r.into_workload_system().unwrap());
    let (workload, info) = b.finish_with_info().unwrap();
    assert_eq!(workload.name, "update");
    assert_eq!(info.stage_summaries.len(), 1);
    assert_eq!(info.stage_summaries[0].name, "default");
    assert_eq!(info.stage_summaries[0].system_count, 2);
    assert_eq!(info.explicit_reset_count, 1);
    assert_eq!(info.tracking_reset_count, 0);
    assert!(workload.run(&app));
    let order = app.world.borrow::<UniqueView<Order>>().unwrap();
    assert_eq!(order.0, "abr");
}

#[test]
fn running_unknown_workload_fails() {
    let app = App::new();
    let b = AppBuilder::new(&app);
    let workload = b.finish().unwrap();
    // A store where this workload was never installed refuses to run it.
    let other = App::new();
    assert!(!workload.run(&other));
    assert!(workload.run(&app));
}

#[test]
fn update_pack_twice_tracks_once_keeps_both_reasons() {
    let app = App::new();
    let mut b = AppBuilder::new(&app);
    let k = TypeKey::new(K_GRAVITY);
    b.update_pack::<u32>(k, "u32", "first toggle").unwrap();
    b.update_pack::<u32>(k, "u32", "second toggle").unwrap();
    let (workload, info) = b.finish_with_info().unwrap();
    assert_eq!(info.tracking_reset_count, 1);
    assert_eq!(info.tracking_entries.len(), 2);
    assert_eq!(info.tracking_entries[0].reason, "first toggle");
    assert_eq!(info.tracking_entries[1].reason, "second toggle");
    // The storage was really switched into tracking mode, and the one
    // scheduled reset system runs without complaint.
    {
        let vm = app.world.borrow::<ViewMut<u32>>().unwrap();
        assert!(vm.is_tracking_insertion());
        assert!(vm.is_tracking_modification());
    }
    assert!(workload.run(&app));
}

#[test]
fn update_pack_reset_clears_insertion_flags() {
    let mut app = App::new();
    let workload = {
        let mut b = AppBuilder::new(&app);
        b.update_pack::<u32>(TypeKey::new(K_GRAVITY), "u32", "tracks inserts")
            .unwrap();
        b.finish().unwrap()
    };
    let id = app.world.add_entity((7u32,));
    {
        let vm = app.world.borrow::<ViewMut<u32>>().unwrap();
        assert!(vm.is_inserted(id));
    }
    assert!(workload.run(&app));
    let vm = app.world.borrow::<ViewMut<u32>>().unwrap();
    assert!(!vm.is_inserted(id));
}

#[test]
fn name_table_keeps_first_observed_name() {
    let app = App::new();
    let mut b = AppBuilder::new(&app);
    let k = TypeKey::new(K_GRAVITY);
    b.depends_on_unique(k, "FirstName", "whatever");
    b.add_unique(k, "SecondName", Gravity(0.0)).unwrap();
    assert_eq!(b.deps.names.len(), 1);
    assert_eq!(b.deps.names[0].key, k);
    assert_eq!(b.deps.names[0].name, "FirstName");
}

#[test]
fn reset_on_untracked_storage_is_harmless() {
    let app = App::new();
    let vm = app.world.borrow::<ViewMut<u32>>().unwrap();
    shipyard_app::reset_update_pack(vm);
}

#[test]
fn name_table_populated_by_every_observation() {
    let app = App::new();
    let mut b = AppBuilder::new(&app);
    // A failing plugin-dependency check still records the observed name.
    let _ = b.depends_on_plugin(TypeKey::new(K_PHYSICS), "Physics", "needed");
    assert_eq!(b.deps.names.len(), 1);
    assert_eq!(b.deps.names[0].name, "Physics");
    // So does the tracked-storage switch.
    b.update_pack::<u32>(TypeKey::new(K_CHILD), "u32", "tracks").unwrap();
    assert_eq!(b.deps.names.len(), 2);
    assert_eq!(b.deps.names[1].key, TypeKey::new(K_CHILD));
    assert_eq!(b.deps.names[1].name, "u32");
}
