//! Build-time composition and validation layer for an entity-component
//! application runtime built on shipyard.
//!
//! Independently authored plugins register systems, provide singleton
//! ("unique") values, and declare dependencies on singletons or on other
//! plugins. The builder merges the whole plugin graph into one ordered,
//! validated workload: plugin registration with cycle detection, two-phase
//! dependency validation, ordered stage assembly, and automatic reset
//! systems for change-tracked storages.

pub mod builder;
pub mod deps;
mod engine;
pub mod errors;
pub mod key;
pub mod path;
pub mod stages;
pub mod tracking;
mod util;

pub use builder::App;
pub use builder::AppBuildInfo;
pub use builder::AppBuilder;
pub use builder::AppWorkload;
pub use builder::DEFAULT_STAGE;
pub use builder::Plugin;
pub use deps::AddedRecord;
pub use deps::DependencyTracker;
pub use deps::NameRecord;
pub use deps::ProviderEntry;
pub use deps::RequirementRecord;
pub use engine::reset_update_pack;
pub use errors::BuildError;
pub use key::TypeKey;
pub use path::Path;
pub use stages::Stage;
pub use stages::StageAssembler;
pub use stages::StageSummary;
pub use tracking::TrackedEntry;
pub use tracking::TrackedRegistrar;
