//! Descriptors for registered functions, value types and trait types, and the
//! instruction form in which a task's body is given to the engine.

use vstd::prelude::*;
use crate::{TaskId, TraitTypeId, ValueTypeId};

verus! {

/// One step of a task body.
///
/// A body is a straight-line program over a single `u64` accumulator, which
/// starts as the task's argument fingerprint. Reads go through the engine and
/// are recorded as dependency edges; publishes go to the task's own cells.
#[derive(Debug, Clone)]
pub enum TaskStep {
    /// Resolve another task's output to a cell, read it, and load the
    /// payload (little-endian) into the accumulator.
    ReadOutput(TaskId),
    /// Read a cell of another task into the accumulator.
    ReadCell(TaskId, usize),
    /// Add a constant to the accumulator (wrapping).
    AddAcc(u64),
    /// Multiply the accumulator by a constant (wrapping).
    MulAcc(u64),
    /// Publish the accumulator, little-endian encoded, to the given cell
    /// index with the given value-type tag.
    PublishAcc(usize, ValueTypeId),
    /// Publish a literal payload to the given cell index; `None` publishes
    /// untyped content.
    PublishBytes(usize, Option<ValueTypeId>, Vec<u8>),
    /// Resolve the task's output to its own cell at the given index.
    OutputCell(usize),
    /// Resolve the task's output to another task's output.
    OutputTask(TaskId),
    /// Fail the execution with the given cause.
    Fail(String),
}

/// A registered task function: a stable descriptor key plus the body the
/// engine runs for each task of this function.
///
/// The descriptor key models the identity of the function value: two
/// `NativeFunction`s are the same function iff their keys are equal.
#[derive(Debug, Clone)]
pub struct NativeFunction {
    pub descriptor: u64,
    pub body: Vec<TaskStep>,
}

/// A registered value type: a stable descriptor key plus the set of trait
/// types this value type implements, used by trait resolution.
#[derive(Debug, Clone)]
pub struct ValueType {
    pub descriptor: u64,
    pub traits: Vec<TraitTypeId>,
}

impl ValueType {
    /// Whether this value type is a member of the given trait type.
    pub open spec fn spec_has_trait(self, t: TraitTypeId) -> bool {
        self.traits@.contains(t)
    }

    /// Membership test backing trait resolution.
    pub fn has_trait(&self, t: TraitTypeId) -> (r: bool)
        ensures
            r == self.spec_has_trait(t),
    {
        let mut i: usize = 0;
        while i < self.traits.len()
            invariant
                i <= self.traits@.len(),
                forall|j: int| 0 <= j < i ==> self.traits@[j] != t,
            decreases self.traits@.len() - i,
        {
            if self.traits[i] == t {
                assert(self.traits@.contains(t));
                return true;
            }
            i = i + 1;
        }
        assert(forall|j: int| 0 <= j < self.traits@.len() ==> self.traits@[j] != t);
        false
    }
}

/// A registered trait type: a stable descriptor key.
#[derive(Debug, Clone)]
pub struct TraitType {
    pub descriptor: u64,
}

} // verus!
