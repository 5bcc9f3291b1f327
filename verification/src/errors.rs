use vstd::prelude::*;

use crate::deps::RequirementRecord;
use crate::key::TypeKey;

verus! {

/// Every way a build can be misconfigured. All of these are discovered
/// before the application begins running; a host aborts on them.
#[derive(Debug)]
pub enum BuildError {
    /// The same plugin type was added twice anywhere in the tree.
    DuplicatePlugin {
        key: TypeKey,
        name: String,
        /// Nesting chain of the rejected second attempt.
        current: Vec<TypeKey>,
        /// Nesting chain recorded when the plugin was first added.
        previous: Vec<TypeKey>,
    },
    /// A plugin type was re-entered while already on the active nesting
    /// path: its build would recurse forever.
    PluginCycle {
        key: TypeKey,
        name: String,
        /// The nesting that would have closed the cycle: the active chain
        /// with the re-entered plugin appended.
        path: Vec<TypeKey>,
    },
    /// `depends_on_plugin` was declared before the depended-on plugin
    /// finished being added.
    MissingPluginDependency {
        key: TypeKey,
        name: String,
        /// Nesting chain of the declaring plugin.
        requester: Vec<TypeKey>,
        reason: String,
    },
    /// A stage with this name already exists.
    DuplicateStage { name: String },
    /// No stage with this name exists.
    UnknownStage { name: String },
    /// Raised once at finish: every singleton type that was depended on
    /// but never provided, each with all of its requesters and reasons.
    UnmetUniqueDependency { unmet: Vec<RequirementRecord> },
    /// The underlying store refused an operation (its storages were
    /// exclusively borrowed elsewhere, or the workload name was taken).
    EngineRefused,
}

} // verus!
