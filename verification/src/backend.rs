//! Per-task storage: execution state, output slot, indexed cell slots with
//! version counters and dependents, and the dependency edges of the last
//! execution.

use vstd::prelude::*;
use crate::{FunctionId, TaskId, ValueTypeId};
use crate::raw_vc::RawVc;

verus! {

/// A shared, immutable cell payload tagged with the value type that produced
/// it; the tag is absent for untyped content.
#[derive(Debug, Clone)]
pub struct SharedReference(pub Option<ValueTypeId>, pub Vec<u8>);

/// Structural equality of payloads: equal tags and equal bytes, and both
/// typed — untyped payloads never compare equal.
pub open spec fn shared_ref_equal(a: SharedReference, b: SharedReference) -> bool {
    &&& a.0 is Some
    &&& b.0 is Some
    &&& a.0 == b.0
    &&& a.1@ == b.1@
}

/// Byte-wise comparison backing the equality-preserving write check.
pub fn bytes_equal(a: &Vec<u8>, b: &Vec<u8>) -> (r: bool)
    ensures
        r == (a@ == b@),
{
    if a.len() != b.len() {
        assert(a@ != b@);
        return false;
    }
    let mut i: usize = 0;
    while i < a.len()
        invariant
            i <= a@.len(),
            a@.len() == b@.len(),
            forall|j: int| 0 <= j < i ==> a@[j] == b@[j],
        decreases a@.len() - i,
    {
        if a[i] != b[i] {
            assert(a@ != b@);
            return false;
        }
        i = i + 1;
    }
    assert(a@ =~= b@);
    true
}

/// A copy of a byte payload.
pub fn clone_bytes(v: &Vec<u8>) -> (r: Vec<u8>)
    ensures
        r@ == v@,
{
    let mut out: Vec<u8> = Vec::new();
    let mut i: usize = 0;
    while i < v.len()
        invariant
            i <= v@.len(),
            out@ == v@.subrange(0, i as int),
        decreases v@.len() - i,
    {
        out.push(v[i]);
        i = i + 1;
    }
    assert(out@ =~= v@);
    out
}

/// A copy of a task-id list.
pub fn clone_ids(v: &Vec<usize>) -> (r: Vec<usize>)
    ensures
        r@ == v@,
{
    let mut out: Vec<usize> = Vec::new();
    let mut i: usize = 0;
    while i < v.len()
        invariant
            i <= v@.len(),
            out@ == v@.subrange(0, i as int),
        decreases v@.len() - i,
    {
        out.push(v[i]);
        i = i + 1;
    }
    assert(out@ =~= v@);
    out
}

/// Executable payload equality test.
pub fn shared_ref_eq(a: &SharedReference, b: &SharedReference) -> (r: bool)
    ensures
        r == shared_ref_equal(*a, *b),
{
    match (&a.0, &b.0) {
        (Some(ta), Some(tb)) => {
            if *ta == *tb {
                bytes_equal(&a.1, &b.1)
            } else {
                false
            }
        },
        _ => false,
    }
}

/// A copy of a payload.
pub fn clone_shared_ref(a: &SharedReference) -> (r: SharedReference)
    ensures
        r.0 == a.0,
        r.1@ == a.1@,
{
    SharedReference(a.0, clone_bytes(&a.1))
}

impl SharedReference {
    /// Typed extraction: the payload bytes, provided the content carries
    /// exactly the expected value-type tag. A differing or missing tag is a
    /// type mismatch.
    pub fn cast(&self, expected: ValueTypeId) -> (r: Result<Vec<u8>, crate::manager::ReadError>)
        ensures
            self.0 == Some(expected) ==> (r matches Ok(b) && b@ == self.1@),
            self.0 != Some(expected) ==> r == Result::<
                Vec<u8>,
                crate::manager::ReadError,
            >::Err(crate::manager::ReadError::TypeMismatch),
    {
        match self.0 {
            Some(t) => {
                if t == expected {
                    Result::Ok(clone_bytes(&self.1))
                } else {
                    Result::Err(crate::manager::ReadError::TypeMismatch)
                }
            },
            None => Result::Err(crate::manager::ReadError::TypeMismatch),
        }
    }
}

/// Execution state of a task.
#[derive(Debug, Clone, Copy, PartialEq, Eq, Structural)]
pub enum TaskState {
    /// Exists but has never executed; output unset.
    Dormant,
    /// Queued for execution.
    Scheduled,
    /// A worker is executing the body.
    Running,
    /// Output resolved (or error recorded); edges installed.
    Done,
    /// A dependency changed under the task; a read will reschedule it.
    Dirty,
}

/// A numbered cell slot: content (empty or a payload), a monotone version,
/// and the tasks that read this slot and must be notified when it changes.
#[derive(Debug)]
pub struct CellSlot {
    pub content: Option<SharedReference>,
    pub version: u64,
    pub dependents: Vec<TaskId>,
}

/// The task's distinguished output slot, holding the handle the execution
/// resolved to.
#[derive(Debug)]
pub struct OutputSlot {
    pub value: Option<RawVc>,
    pub version: u64,
    pub dependents: Vec<TaskId>,
}

/// Everything the backend stores for one task.
#[derive(Debug)]
pub struct TaskRecord {
    /// First half of the task key.
    pub function: FunctionId,
    /// Second half of the task key: the argument fingerprint.
    pub fingerprint: u64,
    pub state: TaskState,
    pub output: OutputSlot,
    /// Sparse cell slots indexed by position; an absent index is an empty
    /// slot that has never been written.
    pub cells: Vec<CellSlot>,
    /// Edges read by the most recent execution: slot and observed version.
    pub edges: Vec<(RawVc, u64)>,
    /// The memoized failure of the last execution, if it failed.
    pub error: Option<String>,
    /// How many times the body has run.
    pub executions: u64,
}

impl TaskRecord {
    /// Two tasks share one identity iff function and fingerprint agree.
    pub open spec fn key_matches(self, function: FunctionId, fingerprint: u64) -> bool {
        self.function == function && self.fingerprint == fingerprint
    }

    /// A fresh, never-executed record.
    pub fn new(function: FunctionId, fingerprint: u64) -> (r: TaskRecord)
        ensures
            r.function == function,
            r.fingerprint == fingerprint,
            r.state is Dormant,
            r.output.value is None,
            r.output.version == 0,
            r.output.dependents@.len() == 0,
            r.cells@.len() == 0,
            r.edges@.len() == 0,
            r.error is None,
            r.executions == 0,
    {
        TaskRecord {
            function,
            fingerprint,
            state: TaskState::Dormant,
            output: OutputSlot { value: None, version: 0, dependents: Vec::new() },
            cells: Vec::new(),
            edges: Vec::new(),
            error: None,
            executions: 0,
        }
    }
}

} // verus!
