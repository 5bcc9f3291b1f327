use shipyard_app::BuildError;
use shipyard_app::StageAssembler;

use shipyard::IntoWorkloadSystem;
use shipyard::WorkloadSystem;

fn noop() {}

fn noop_system() -> WorkloadSystem {
    noop.into_workload_system().unwrap()
}

#[test]
fn adding_duplicate_stage_fails() {
    let mut stages = StageAssembler::new();
    stages.add_stage("render".to_string()).unwrap();
    let r = stages.add_stage("render".to_string());
    match r {
        Err(BuildError::DuplicateStage { name }) => assert_eq!(name, "render"),
        other => panic!("expected DuplicateStage, got {:?}", other.err()),
    }
}

#[test]
fn adding_system_to_unknown_stage_fails() {
    let mut stages = StageAssembler::new();
    stages.add_stage("render".to_string()).unwrap();
    let r = stages.add_system_to_stage("physics", noop_system());
    match r {
        Err(BuildError::UnknownStage { name }) => assert_eq!(name, "physics"),
        other => panic!("expected UnknownStage, got {:?}", other.err()),
    }
}

#[test]
fn assemble_concatenates_stages_in_order() {
    let mut stages = StageAssembler::new();
    stages.add_stage("first".to_string()).unwrap();
    stages.add_stage("second".to_string()).unwrap();
    stages.add_system_to_stage("first", noop_system()).unwrap();
    stages.add_system_to_stage("first", noop_system()).unwrap();
    stages.add_system_to_stage("second", noop_system()).unwrap();
    let summaries = stages.summaries();
    assert_eq!(summaries.len(), 2);
    assert_eq!(summaries[0].name, "first");
    assert_eq!(summaries[0].system_count, 2);
    assert_eq!(summaries[1].name, "second");
    assert_eq!(summaries[1].system_count, 1);
    let all = stages.assemble();
    assert_eq!(all.len(), 3);
}
