//! Incremental, memoizing task engine: tasks execute registered functions,
//! publish versioned cells, and hand out handles that resolve to cells.
//!
//! The engine caches task outputs keyed by (function-id, argument-fingerprint),
//! tracks which slots each execution read, and re-executes only tasks whose
//! dependencies have changed.

use vstd::prelude::*;

pub mod asset;
pub mod backend;
pub mod manager;
pub mod options;
pub mod raw_vc;
pub mod registry;
pub mod task;

verus! {

/// Dense index of a task in the engine's task table.
pub type TaskId = usize;

/// Dense identifier of a registered function descriptor.
pub type FunctionId = usize;

/// Dense identifier of a registered value-type descriptor.
pub type ValueTypeId = usize;

/// Dense identifier of a registered trait-type descriptor.
pub type TraitTypeId = usize;

} // verus!
