//! The engine: the task table, memoizing spawn, the publish / invalidate
//! primitives with equality-preserving writes and dirty propagation, and the
//! non-blocking try-read primitives.

use vstd::prelude::*;
use crate::{FunctionId, TaskId, ValueTypeId};
use crate::backend::{
    bytes_equal, clone_bytes, clone_ids, clone_shared_ref, CellSlot, SharedReference, TaskRecord,
    TaskState,
};
use crate::raw_vc::RawVc;
use crate::registry::Registry;
use crate::task::TaskStep;
use vstd::string::StringExecFns;

verus! {

broadcast use vstd::std_specs::vec::axiom_spec_len;

/// Outcome of a non-blocking read primitive: the value, or "not available
/// yet, wait and retry", or a recorded failure.
#[derive(Debug)]
pub enum TryRead<T> {
    Ready(T),
    Pending,
    Failed(ReadError),
}

/// Errors surfaced by reads through the handle protocol.
#[derive(Debug, Clone, PartialEq, Eq)]
pub enum ReadError {
    /// The task body failed; the cause is memoized with the task.
    TaskError(String),
    /// A cell expected to be non-empty is empty.
    NoContent,
    /// A typed read reached a cell whose tag is not the expected one.
    TypeMismatch,
    /// The read depends on a task currently executing below it.
    CycleDetected,
    /// The step budget ran out before the read settled.
    FuelExhausted,
}

/// Saturating version advance: versions are monotone and stick at the top.
pub open spec fn bump(v: u64) -> u64 {
    if v < 0xffff_ffff_ffff_ffffu64 {
        (v + 1) as u64
    } else {
        v
    }
}

/// The engine state: the interning registry, the task table (indexed by
/// task id), and the task whose execution currently records read edges.
pub struct TurboTasks {
    pub registry: Registry,
    pub tasks: Vec<TaskRecord>,
    pub current_task: Option<TaskId>,
}

impl TurboTasks {
    pub open spec fn n_tasks(self) -> int {
        self.tasks@.len() as int
    }

    pub open spec fn valid_task(self, t: TaskId) -> bool {
        (t as int) < self.tasks@.len()
    }

    pub open spec fn valid_handle(self, h: RawVc) -> bool {
        (h.spec_task_id() as int) < self.tasks@.len()
    }

    /// The current version of a slot; a never-written cell slot is at 0.
    pub open spec fn slot_version(self, s: RawVc) -> u64 {
        match s {
            RawVc::TaskOutput(t) => self.tasks@[t as int].output.version,
            RawVc::TaskCell(t, i) => if (i as int) < self.tasks@[t as int].cells@.len() {
                self.tasks@[t as int].cells@[i as int].version
            } else {
                0
            },
        }
    }

    /// The slot has storage: outputs always do, cells once the index exists.
    pub open spec fn slot_exists(self, s: RawVc) -> bool {
        self.valid_handle(s) && match s {
            RawVc::TaskOutput(t) => true,
            RawVc::TaskCell(t, i) => (i as int) < self.tasks@[t as int].cells@.len(),
        }
    }

    /// The readers registered on a slot.
    pub open spec fn slot_dependents(self, s: RawVc) -> Seq<TaskId> {
        match s {
            RawVc::TaskOutput(t) => self.tasks@[t as int].output.dependents@,
            RawVc::TaskCell(t, i) => self.tasks@[t as int].cells@[i as int].dependents@,
        }
    }

    /// An edge is current if the slot has not advanced past the version the
    /// reader observed.
    pub open spec fn edge_current(self, e: (RawVc, u64)) -> bool {
        self.slot_version(e.0) <= e.1
    }

    /// Every edge of the task's last execution is current.
    pub open spec fn task_clean(self, t: int) -> bool {
        forall|j: int|
            0 <= j < self.tasks@[t].edges@.len() ==> self.edge_current(self.tasks@[t].edges@[j])
    }

    /// The task is waiting for a worker.
    pub open spec fn task_ready(self, t: int) -> bool {
        self.tasks@[t].state is Scheduled || self.tasks@[t].state is Dirty
    }

    /// Nothing is queued or dirty: the engine is settled.
    pub open spec fn no_ready(self) -> bool {
        forall|t: int| 0 <= t < self.n_tasks() ==> !self.task_ready(t)
    }

    /// No worker is executing any task.
    pub open spec fn no_running(self) -> bool {
        forall|t: int| 0 <= t < self.n_tasks() ==> !(self.tasks@[t].state is Running)
    }

    /// Record-local well-formedness of one task, against the whole state.
    pub open spec fn task_wf(self, t: int) -> bool {
        let rec = self.tasks@[t];
        &&& (rec.function as int) < self.registry.functions@.len()
        &&& (rec.output.value matches Some(h) ==> self.valid_handle(h))
        &&& (forall|j: int|
            0 <= j < rec.edges@.len() ==> {
                &&& #[trigger] self.slot_exists(rec.edges@[j].0)
                &&& self.slot_dependents(rec.edges@[j].0).contains(t as TaskId)
            })
        &&& (forall|j: int|
            0 <= j < rec.output.dependents@.len()
                ==> (#[trigger] rec.output.dependents@[j] as int) < self.n_tasks())
        &&& (forall|i: int, j: int|
            0 <= i < rec.cells@.len() && 0 <= j < rec.cells@[i].dependents@.len()
                ==> (#[trigger] rec.cells@[i].dependents@[j] as int) < self.n_tasks())
        &&& (rec.state is Done ==> self.task_clean(t))
        &&& (rec.state is Done ==> (rec.output.value is Some || rec.error is Some))
    }

    /// No two tasks share a key: memoization's backbone.
    pub open spec fn keys_unique(self) -> bool {
        forall|i: int, j: int|
            0 <= i < j < self.n_tasks()
                ==> !(#[trigger] self.tasks@[j].key_matches(
                    self.tasks@[i].function,
                    self.tasks@[i].fingerprint,
                ))
    }

    /// Global well-formedness.
    pub open spec fn wf(self) -> bool {
        &&& self.registry.wf()
        &&& (forall|t: int| 0 <= t < self.n_tasks() ==> self.task_wf(t))
        &&& self.keys_unique()
        &&& (self.current_task matches Some(c) ==> (c as int) < self.n_tasks()
            && self.tasks@[c as int].state is Running)
    }
}

/// Task identities are preserved between two states: the table only grows,
/// and existing tasks keep their function, fingerprint and registry.
pub open spec fn same_keys(a: TurboTasks, b: TurboTasks) -> bool {
    &&& a.registry == b.registry
    &&& a.n_tasks() <= b.n_tasks()
    &&& forall|t: int|
        0 <= t < a.n_tasks() ==> {
            &&& (#[trigger] b.tasks@[t]).function == a.tasks@[t].function
            &&& b.tasks@[t].fingerprint == a.tasks@[t].fingerprint
        }
}

/// Every slot's version is non-decreasing from `a` to `b`, and cell tables
/// only grow. This is the engine-wide monotonicity law.
pub open spec fn versions_monotone(a: TurboTasks, b: TurboTasks) -> bool {
    forall|t: int|
        0 <= t < a.n_tasks() ==> {
            &&& (#[trigger] b.tasks@[t]).output.version >= a.tasks@[t].output.version
            &&& b.tasks@[t].cells@.len() >= a.tasks@[t].cells@.len()
            &&& forall|i: int|
                0 <= i < a.tasks@[t].cells@.len()
                    ==> (#[trigger] b.tasks@[t].cells@[i]).version >= a.tasks@[t].cells@[i].version
        }
}

/// Execution counters never go backwards.
pub open spec fn executions_monotone(a: TurboTasks, b: TurboTasks) -> bool {
    forall|t: int|
        0 <= t < a.n_tasks()
            ==> (#[trigger] b.tasks@[t]).executions >= a.tasks@[t].executions
}

/// Tasks that are mid-execution stay mid-execution: nothing here preempts
/// a running body.
pub open spec fn running_preserved(a: TurboTasks, b: TurboTasks) -> bool {
    forall|t: int|
        0 <= t < a.n_tasks() && a.tasks@[t].state is Running
            ==> (#[trigger] b.tasks@[t]).state is Running
}

/// Read-sets of tasks that are mid-execution belong to their own bodies:
/// nothing else appends to them.
pub open spec fn running_edges_untouched(a: TurboTasks, b: TurboTasks) -> bool {
    forall|t: int|
        0 <= t < a.n_tasks() && a.tasks@[t].state is Running
            ==> (#[trigger] b.tasks@[t]).edges == a.tasks@[t].edges
}

/// Tasks that are mid-execution are never re-entered: their execution
/// counters do not move while they run.
pub open spec fn running_untouched(a: TurboTasks, b: TurboTasks) -> bool {
    forall|t: int|
        0 <= t < a.n_tasks() && a.tasks@[t].state is Running
            ==> (#[trigger] b.tasks@[t]).executions == a.tasks@[t].executions
}

/// A record as `TaskRecord::new` builds it.
pub open spec fn fresh_task_record(rec: TaskRecord, f: FunctionId, fp: u64) -> bool {
    &&& rec.function == f
    &&& rec.fingerprint == fp
    &&& rec.state is Dormant
    &&& rec.output.value is None
    &&& rec.output.version == 0
    &&& rec.output.dependents@.len() == 0
    &&& rec.cells@.len() == 0
    &&& rec.edges@.len() == 0
    &&& rec.error is None
    &&& rec.executions == 0
}

/// Exactly what `spawn` promises: either the key already had a task and
/// nothing changed, or one fresh dormant task was appended; either way the
/// returned handle names the unique task with that key.
pub open spec fn spawn_post(
    pre: TurboTasks,
    post: TurboTasks,
    r: RawVc,
    f: FunctionId,
    fp: u64,
) -> bool {
    &&& r is TaskOutput
    &&& post.valid_handle(r)
    &&& post.tasks@[r.spec_task_id() as int].key_matches(f, fp)
    &&& if exists|j: int| 0 <= j < pre.n_tasks() && (#[trigger] pre.tasks@[j]).key_matches(f, fp) {
        post == pre
    } else {
        &&& post.n_tasks() == pre.n_tasks() + 1
        &&& post.tasks@.subrange(0, pre.n_tasks()) == pre.tasks@
        &&& fresh_task_record(post.tasks@[pre.n_tasks()], f, fp)
        &&& r == RawVc::TaskOutput(pre.n_tasks() as usize)
        &&& post.registry == pre.registry
        &&& post.current_task == pre.current_task
    }
}

impl TurboTasks {
    /// A fresh engine around a registry.
    pub fn new(registry: Registry) -> (r: TurboTasks)
        requires
            registry.wf(),
        ensures
            r.wf(),
            r.n_tasks() == 0,
            r.registry == registry,
            r.current_task is None,
            r.no_ready(),
            r.no_running(),
    {
        TurboTasks { registry, tasks: Vec::new(), current_task: None }
    }

    /// Memoizing spawn: the handle for the task with key `(f, fp)`, creating
    /// a dormant task only if the key is new.
    pub fn spawn(&mut self, f: FunctionId, fp: u64) -> (r: RawVc)
        requires
            old(self).wf(),
            (f as int) < old(self).registry.functions@.len(),
        ensures
            final(self).wf(),
            spawn_post(*old(self), *final(self), r, f, fp),
            same_keys(*old(self), *final(self)),
            versions_monotone(*old(self), *final(self)),
            executions_monotone(*old(self), *final(self)),
            final(self).current_task == old(self).current_task,
            running_preserved(*old(self), *final(self)),
            running_untouched(*old(self), *final(self)),
            old(self).no_running() ==> final(self).no_running(),
    {
        let n: usize = self.tasks.len();
        let mut t: usize = 0;
        while t < n
            invariant
                *self == *old(self),
                old(self).wf(),
                n == self.tasks@.len(),
                t <= n,
                forall|j: int| 0 <= j < t ==> !(#[trigger] self.tasks@[j]).key_matches(f, fp),
            decreases n - t,
        {
            if self.tasks[t].function == f && self.tasks[t].fingerprint == fp {
                proof {
                    assert(self.tasks@[t as int].key_matches(f, fp));
                    assert(self.keys_unique());
                }
                return RawVc::TaskOutput(t);
            }
            t = t + 1;
        }
        assert(forall|j: int|
            0 <= j < self.n_tasks() ==> !(#[trigger] self.tasks@[j]).key_matches(f, fp));
        let rec = TaskRecord::new(f, fp);
        self.tasks.push(rec);
        proof {
            assert(self.tasks@.subrange(0, old(self).n_tasks()) =~= old(self).tasks@);
            lemma_append_task_preserves_wf(*old(self), *self, rec);
        }
        RawVc::TaskOutput(n)
    }
}

/// Appending a fresh dormant task with a new key and a registered function
/// preserves well-formedness.
proof fn lemma_append_task_preserves_wf(pre: TurboTasks, post: TurboTasks, rec: TaskRecord)
    requires
        pre.wf(),
        post.tasks@ == pre.tasks@.push(rec),
        post.registry == pre.registry,
        post.current_task == pre.current_task,
        (rec.function as int) < pre.registry.functions@.len(),
        rec.state is Dormant,
        rec.cells@.len() == 0,
        rec.edges@.len() == 0,
        rec.output.dependents@.len() == 0,
        rec.output.value is None,
        forall|j: int|
            0 <= j < pre.n_tasks()
                ==> !(#[trigger] pre.tasks@[j]).key_matches(rec.function, rec.fingerprint),
    ensures
        post.wf(),
{
    let n = pre.n_tasks();
    assert(forall|u: int| 0 <= u < n ==> post.tasks@[u] == pre.tasks@[u]);
    assert(post.tasks@[n] == rec);
    assert forall|s: RawVc| pre.slot_exists(s) implies {
        &&& post.slot_exists(s)
        &&& post.slot_version(s) == pre.slot_version(s)
        &&& post.slot_dependents(s) == pre.slot_dependents(s)
    } by {
        assert(post.tasks@[s.spec_task_id() as int] == pre.tasks@[s.spec_task_id() as int]);
    }
    assert forall|u: int| 0 <= u < post.n_tasks() implies post.task_wf(u) by {
        if u < n {
            assert(pre.task_wf(u));
            assert(post.tasks@[u] == pre.tasks@[u]);
            assert forall|j: int| 0 <= j < post.tasks@[u].edges@.len() implies {
                &&& #[trigger] post.slot_exists(post.tasks@[u].edges@[j].0)
                &&& post.slot_dependents(post.tasks@[u].edges@[j].0).contains(u as TaskId)
            } by {
                assert(pre.slot_exists(pre.tasks@[u].edges@[j].0));
            }
            if post.tasks@[u].state is Done {
                assert forall|j: int|
                    0 <= j < post.tasks@[u].edges@.len() implies post.edge_current(
                    post.tasks@[u].edges@[j],
                ) by {
                    assert(pre.edge_current(pre.tasks@[u].edges@[j]));
                    assert(pre.slot_exists(pre.tasks@[u].edges@[j].0));
                }
            }
        } else {
            assert(post.tasks@[u] == rec);
        }
    }
    assert forall|i: int, j: int| 0 <= i < j < post.n_tasks() implies !(
    #[trigger] post.tasks@[j].key_matches(post.tasks@[i].function, post.tasks@[i].fingerprint)) by {
        if j < n {
            assert(!pre.tasks@[j].key_matches(pre.tasks@[i].function, pre.tasks@[i].fingerprint));
        } else {
            assert(post.tasks@[j] == rec);
            assert(!pre.tasks@[i].key_matches(rec.function, rec.fingerprint));
        }
    }
}

/// Memoization: two spawns of the same key, one after the other, return the
/// same handle, and the second changes nothing.
pub proof fn law_spawn_memoized(
    s0: TurboTasks,
    s1: TurboTasks,
    s2: TurboTasks,
    h1: RawVc,
    h2: RawVc,
    f: FunctionId,
    fp: u64,
)
    requires
        s0.keys_unique(),
        s1.keys_unique(),
        spawn_post(s0, s1, h1, f, fp),
        spawn_post(s1, s2, h2, f, fp),
    ensures
        h2 == h1,
        s2 == s1,
{
    let t1 = h1.spec_task_id() as int;
    assert(0 <= t1 < s1.n_tasks() && s1.tasks@[t1].key_matches(f, fp));
    assert(exists|j: int| 0 <= j < s1.n_tasks() && (#[trigger] s1.tasks@[j]).key_matches(f, fp));
    assert(s2 == s1);
    let t2 = h2.spec_task_id() as int;
    assert(s1.tasks@[t2].key_matches(f, fp));
    if t1 < t2 {
        assert(!s1.tasks@[t2].key_matches(s1.tasks@[t1].function, s1.tasks@[t1].fingerprint));
        assert(false);
    }
    if t2 < t1 {
        assert(!s1.tasks@[t1].key_matches(s1.tasks@[t2].function, s1.tasks@[t2].fingerprint));
        assert(false);
    }
    assert(t1 == t2);
    assert(h1 == RawVc::TaskOutput(t1 as usize) || h1 is TaskOutput);
    assert(h1 == h2) by {
        assert(h1 is TaskOutput && h2 is TaskOutput);
        assert(h1.spec_task_id() == h2.spec_task_id());
    }
}


/// Two records agree on everything except possibly the execution state.
pub open spec fn same_but_state(a: TaskRecord, b: TaskRecord) -> bool {
    &&& b.function == a.function
    &&& b.fingerprint == a.fingerprint
    &&& b.output == a.output
    &&& b.cells == a.cells
    &&& b.edges == a.edges
    &&& b.error == a.error
    &&& b.executions == a.executions
}

/// A never-written cell slot.
pub open spec fn fresh_cell(c: CellSlot) -> bool {
    &&& c.content is None
    &&& c.version == 0
    &&& c.dependents@.len() == 0
}

/// Dirty propagation: every task that was Done and has a stale edge after
/// the write is marked Dirty; every other task keeps its state.
pub open spec fn states_marked(pre: TurboTasks, post: TurboTasks) -> bool {
    forall|u: int|
        0 <= u < pre.n_tasks() ==> (#[trigger] post.tasks@[u]).state == (
        if pre.tasks@[u].state is Done && !post.task_clean(u) {
            TaskState::Dirty
        } else {
            pre.tasks@[u].state
        })
}

impl TurboTasks {
    /// The cell already holds typed content equal to the candidate payload:
    /// the equality-preserving write test. Untyped content never compares
    /// equal.
    pub open spec fn cell_equal_content(
        self,
        t: int,
        i: int,
        ty: Option<ValueTypeId>,
        bytes: Seq<u8>,
    ) -> bool {
        &&& i < self.tasks@[t].cells@.len()
        &&& match self.tasks@[t].cells@[i].content {
            Some(c) => c.0 is Some && ty is Some && c.0 == ty && c.1@ == bytes,
            None => false,
        }
    }
}

/// The exact effect of a changing cell write: new content, bumped version,
/// preserved dependents, every other slot untouched, and dirty propagation.
pub open spec fn cell_written(
    pre: TurboTasks,
    post: TurboTasks,
    t: TaskId,
    i: usize,
    ty: Option<ValueTypeId>,
    bytes: Seq<u8>,
) -> bool {
    let ti = t as int;
    let ii = i as int;
    let pr = pre.tasks@[ti];
    let po = post.tasks@[ti];
    &&& post.n_tasks() == pre.n_tasks()
    &&& post.registry == pre.registry
    &&& post.current_task == pre.current_task
    &&& po.cells@.len() == if ii + 1 > pr.cells@.len() {
        ii + 1
    } else {
        pr.cells@.len() as int
    }
    &&& match po.cells@[ii].content {
        Some(c) => c.0 == ty && c.1@ == bytes,
        None => false,
    }
    &&& po.cells@[ii].version == bump(pre.slot_version(RawVc::TaskCell(t, i)))
    &&& po.cells@[ii].dependents@ == if ii < pr.cells@.len() {
        pr.cells@[ii].dependents@
    } else {
        Seq::<TaskId>::empty()
    }
    &&& forall|j: int| 0 <= j < pr.cells@.len() && j != ii ==> po.cells@[j] == pr.cells@[j]
    &&& forall|j: int|
        pr.cells@.len() <= j < po.cells@.len() && j != ii ==> fresh_cell(#[trigger] po.cells@[j])
    &&& po.output == pr.output
    &&& po.edges == pr.edges
    &&& po.error == pr.error
    &&& po.executions == pr.executions
    &&& forall|u: int|
        0 <= u < pre.n_tasks() && u != ti ==> same_but_state(
            pre.tasks@[u],
            #[trigger] post.tasks@[u],
        )
    &&& states_marked(pre, post)
}

/// The exact effect of a changing output write.
pub open spec fn output_written(pre: TurboTasks, post: TurboTasks, t: TaskId, h: RawVc) -> bool {
    let ti = t as int;
    let pr = pre.tasks@[ti];
    let po = post.tasks@[ti];
    &&& post.n_tasks() == pre.n_tasks()
    &&& post.registry == pre.registry
    &&& post.current_task == pre.current_task
    &&& po.output.value == Some(h)
    &&& po.output.version == bump(pr.output.version)
    &&& po.output.dependents@ == pr.output.dependents@
    &&& po.cells == pr.cells
    &&& po.edges == pr.edges
    &&& po.error == pr.error
    &&& po.executions == pr.executions
    &&& forall|u: int|
        0 <= u < pre.n_tasks() && u != ti ==> same_but_state(
            pre.tasks@[u],
            #[trigger] post.tasks@[u],
        )
    &&& states_marked(pre, post)
}

/// The exact effect of an external invalidation of an existing cell slot:
/// content kept, version bumped, dirty propagation.
pub open spec fn slot_invalidated(pre: TurboTasks, post: TurboTasks, t: TaskId, i: usize) -> bool {
    let ti = t as int;
    let ii = i as int;
    let pr = pre.tasks@[ti];
    let po = post.tasks@[ti];
    &&& post.n_tasks() == pre.n_tasks()
    &&& post.registry == pre.registry
    &&& post.current_task == pre.current_task
    &&& po.cells@.len() == pr.cells@.len()
    &&& po.cells@[ii].content == pr.cells@[ii].content
    &&& po.cells@[ii].version == bump(pr.cells@[ii].version)
    &&& po.cells@[ii].dependents@ == pr.cells@[ii].dependents@
    &&& forall|j: int| 0 <= j < pr.cells@.len() && j != ii ==> po.cells@[j] == pr.cells@[j]
    &&& po.output == pr.output
    &&& po.edges == pr.edges
    &&& po.error == pr.error
    &&& po.executions == pr.executions
    &&& forall|u: int|
        0 <= u < pre.n_tasks() && u != ti ==> same_but_state(
            pre.tasks@[u],
            #[trigger] post.tasks@[u],
        )
    &&& states_marked(pre, post)
}

impl TurboTasks {
    /// All recorded edges point at handles inside the table.
    pub open spec fn edges_valid(self) -> bool {
        forall|u: int, j: int|
            0 <= u < self.n_tasks() && 0 <= j < self.tasks@[u].edges@.len()
                ==> self.valid_handle((#[trigger] self.tasks@[u].edges@[j]).0)
    }

    /// The current version of a slot, as stored.
    pub fn slot_version_exec(&self, s: RawVc) -> (r: u64)
        requires
            self.valid_handle(s),
        ensures
            r == self.slot_version(s),
    {
        match s {
            RawVc::TaskOutput(t) => self.tasks[t].output.version,
            RawVc::TaskCell(t, i) => {
                if i < self.tasks[t].cells.len() {
                    self.tasks[t].cells[i].version
                } else {
                    0
                }
            },
        }
    }

    /// Whether every edge of the task is still current.
    pub fn task_clean_exec(&self, u: TaskId) -> (r: bool)
        requires
            self.valid_task(u),
            self.edges_valid(),
        ensures
            r == self.task_clean(u as int),
    {
        let n: usize = self.tasks[u].edges.len();
        let mut j: usize = 0;
        while j < n
            invariant
                self.valid_task(u),
                self.edges_valid(),
                n == self.tasks@[u as int].edges@.len(),
                j <= n,
                forall|k: int|
                    0 <= k < j ==> self.edge_current(#[trigger] self.tasks@[u as int].edges@[k]),
            decreases n - j,
        {
            let e = self.tasks[u].edges[j];
            let v = self.slot_version_exec(e.0);
            if v > e.1 {
                assert(!self.edge_current(self.tasks@[u as int].edges@[j as int]));
                return false;
            }
            j = j + 1;
        }
        true
    }

    /// Mark Dirty every Done task in `deps` whose edges are stale; the list
    /// must cover every stale Done task.
    fn mark_stale_dependents(&mut self, deps: &Vec<TaskId>)
        requires
            old(self).edges_valid(),
            forall|m: int| 0 <= m < deps@.len() ==> ((#[trigger] deps@[m]) as int) < old(self).n_tasks(),
            forall|u: int|
                0 <= u < old(self).n_tasks() && old(self).tasks@[u].state is Done
                    && !old(self).task_clean(u) ==> deps@.contains(u as TaskId),
        ensures
            final(self).n_tasks() == old(self).n_tasks(),
            final(self).registry == old(self).registry,
            final(self).current_task == old(self).current_task,
            forall|u: int|
                0 <= u < old(self).n_tasks() ==> same_but_state(
                    old(self).tasks@[u],
                    #[trigger] final(self).tasks@[u],
                ),
            states_marked(*old(self), *final(self)),
    {
        let ghost pre = *self;
        let n: usize = deps.len();
        let mut k: usize = 0;
        while k < n
            invariant
                n == deps@.len(),
                k <= n,
                self.n_tasks() == pre.n_tasks(),
                self.registry == pre.registry,
                self.current_task == pre.current_task,
                self.edges_valid(),
                forall|m: int| 0 <= m < deps@.len() ==> ((#[trigger] deps@[m]) as int) < pre.n_tasks(),
                forall|u: int|
                    0 <= u < pre.n_tasks() ==> same_but_state(
                        pre.tasks@[u],
                        #[trigger] self.tasks@[u],
                    ),
                forall|u: int|
                    0 <= u < pre.n_tasks() ==> (#[trigger] self.tasks@[u]).state == pre.tasks@[u].state
                        || (self.tasks@[u].state is Dirty && pre.tasks@[u].state is Done
                            && !self.task_clean(u)),
                forall|m: int|
                    0 <= m < k && pre.tasks@[deps@[m] as int].state is Done && !self.task_clean(
                        deps@[m] as int,
                    ) ==> (#[trigger] self.tasks@[deps@[m] as int]).state is Dirty,
            decreases n - k,
        {
            let ghost before = *self;
            let u = deps[k];
            let is_done = match self.tasks[u].state {
                TaskState::Done => true,
                _ => false,
            };
            if is_done {
                if !self.task_clean_exec(u) {
                    self.tasks[u].state = TaskState::Dirty;
                    proof {
                        assert forall|w: int| 0 <= w < pre.n_tasks() implies self.task_clean(w)
                            == before.task_clean(w) by {
                            lemma_state_change_keeps_clean(before, *self, w);
                        }
                    }
                }
            }
            k = k + 1;
        }
        proof {
            assert forall|w: int| 0 <= w < pre.n_tasks() implies self.task_clean(w)
                == pre.task_clean(w) by {
                lemma_state_change_keeps_clean(pre, *self, w);
            }
            assert forall|u: int| 0 <= u < pre.n_tasks() implies (#[trigger] self.tasks@[u]).state
                == (if pre.tasks@[u].state is Done && !self.task_clean(u) {
                TaskState::Dirty
            } else {
                pre.tasks@[u].state
            }) by {
                if pre.tasks@[u].state is Done && !self.task_clean(u) {
                    assert(!pre.task_clean(u));
                    assert(pre.tasks@.len() == vstd::std_specs::vec::spec_vec_len(&pre.tasks));
                    assert((u as TaskId) as int == u);
                    assert(deps@.contains(u as TaskId));
                    let m = choose|m: int| 0 <= m < deps@.len() && deps@[m] == u as TaskId;
                    assert(deps@[m] as int == u);
                    assert(self.tasks@[deps@[m] as int].state is Dirty);
                }
            }
        }
    }
}

/// A state-only change (same slots everywhere) does not affect which tasks
/// are clean.
proof fn lemma_state_change_keeps_clean(a: TurboTasks, b: TurboTasks, u: int)
    requires
        a.n_tasks() == b.n_tasks(),
        a.edges_valid(),
        0 <= u < a.n_tasks(),
        forall|w: int|
            0 <= w < a.n_tasks() ==> same_but_state(a.tasks@[w], #[trigger] b.tasks@[w]),
    ensures
        b.task_clean(u) == a.task_clean(u),
{
    assert(b.tasks@[u].edges == a.tasks@[u].edges);
    assert forall|j: int| 0 <= j < a.tasks@[u].edges@.len() implies b.edge_current(
        #[trigger] a.tasks@[u].edges@[j],
    ) == a.edge_current(a.tasks@[u].edges@[j]) by {
        let e = a.tasks@[u].edges@[j];
        let w = e.0.spec_task_id() as int;
        assert(a.valid_handle(e.0));
        assert(same_but_state(a.tasks@[w], b.tasks@[w]));
        assert(b.slot_version(e.0) == a.slot_version(e.0));
    }
    if a.task_clean(u) {
        assert forall|j: int| 0 <= j < b.tasks@[u].edges@.len() implies b.edge_current(
            b.tasks@[u].edges@[j],
        ) by {
            assert(a.edge_current(a.tasks@[u].edges@[j]));
        }
    }
    if b.task_clean(u) {
        assert forall|j: int| 0 <= j < a.tasks@[u].edges@.len() implies a.edge_current(
            a.tasks@[u].edges@[j],
        ) by {
            assert(b.edge_current(b.tasks@[u].edges@[j]));
        }
    }
}


impl TurboTasks {
    /// Publish a payload to cell `i` of task `t`.
    ///
    /// If the slot already holds typed content equal to the payload, this is
    /// the equality-preserving write: nothing changes at all, so no reader
    /// is invalidated. Otherwise the content is installed, the version
    /// advances, and every Done reader left with a stale edge is marked
    /// Dirty.
    pub fn publish_cell(&mut self, t: TaskId, i: usize, ty: Option<ValueTypeId>, payload: Vec<u8>)
        requires
            old(self).wf(),
            old(self).valid_task(t),
            i < usize::MAX,
        ensures
            final(self).wf(),
            same_keys(*old(self), *final(self)),
            versions_monotone(*old(self), *final(self)),
            executions_monotone(*old(self), *final(self)),
            final(self).current_task == old(self).current_task,
            running_preserved(*old(self), *final(self)),
            running_untouched(*old(self), *final(self)),
            old(self).cell_equal_content(t as int, i as int, ty, payload@) ==> *final(self)
                == *old(self),
            !old(self).cell_equal_content(t as int, i as int, ty, payload@) ==> cell_written(
                *old(self),
                *final(self),
                t,
                i,
                ty,
                payload@,
            ),
            old(self).no_running() ==> final(self).no_running(),
    {
        let ghost pre = *self;
        if i < self.tasks[t].cells.len() {
            let equal = match &self.tasks[t].cells[i].content {
                Some(c) => {
                    match (c.0, ty) {
                        (Some(a), Some(b)) => a == b && bytes_equal(&c.1, &payload),
                        _ => false,
                    }
                },
                None => false,
            };
            if equal {
                assert(pre.cell_equal_content(t as int, i as int, ty, payload@));
                return ;
            }
        }
        assert(!pre.cell_equal_content(t as int, i as int, ty, payload@));
        let ghost base = pre.tasks@[t as int].cells@.len() as int;
        while self.tasks[t].cells.len() <= i
            invariant
                pre.wf(),
                (t as int) < pre.n_tasks(),
                i < usize::MAX,
                base == pre.tasks@[t as int].cells@.len(),
                self.n_tasks() == pre.n_tasks(),
                self.registry == pre.registry,
                self.current_task == pre.current_task,
                forall|u: int|
                    0 <= u < pre.n_tasks() && u != t as int ==> (#[trigger] self.tasks@[u])
                        == pre.tasks@[u],
                self.tasks@[t as int].function == pre.tasks@[t as int].function,
                self.tasks@[t as int].fingerprint == pre.tasks@[t as int].fingerprint,
                self.tasks@[t as int].state == pre.tasks@[t as int].state,
                self.tasks@[t as int].output == pre.tasks@[t as int].output,
                self.tasks@[t as int].edges == pre.tasks@[t as int].edges,
                self.tasks@[t as int].error == pre.tasks@[t as int].error,
                self.tasks@[t as int].executions == pre.tasks@[t as int].executions,
                base <= self.tasks@[t as int].cells@.len(),
                self.tasks@[t as int].cells@.len() <= if base > i as int {
                    base
                } else {
                    i + 1
                },
                forall|j: int|
                    0 <= j < base ==> (#[trigger] self.tasks@[t as int].cells@[j])
                        == pre.tasks@[t as int].cells@[j],
                forall|j: int|
                    base <= j < self.tasks@[t as int].cells@.len() ==> fresh_cell(
                        #[trigger] self.tasks@[t as int].cells@[j],
                    ),
            decreases i as int + 1 - self.tasks@[t as int].cells@.len(),
        {
            self.tasks[t].cells.push(CellSlot { content: None, version: 0, dependents: Vec::new() });
        }
        let oldv: u64 = self.tasks[t].cells[i].version;
        let newv: u64 = if oldv < 0xffff_ffff_ffff_ffffu64 {
            oldv + 1
        } else {
            oldv
        };
        proof {
            if (i as int) < base {
                assert(oldv == pre.slot_version(RawVc::TaskCell(t, i)));
            } else {
                assert(fresh_cell(self.tasks@[t as int].cells@[i as int]));
                assert(oldv == 0);
                assert(pre.slot_version(RawVc::TaskCell(t, i)) == 0);
            }
        }
        self.tasks[t].cells[i].content = Some(SharedReference(ty, payload));
        self.tasks[t].cells[i].version = newv;
        let ghost mid = *self;
        let deps = clone_ids(&self.tasks[t].cells[i].dependents);
        proof {
            assert(mid.edges_valid()) by {
                assert forall|u: int, j: int|
                    0 <= u < mid.n_tasks() && 0 <= j < mid.tasks@[u].edges@.len() implies mid
                    .valid_handle((#[trigger] mid.tasks@[u].edges@[j]).0) by {
                    assert(mid.tasks@[u].edges == pre.tasks@[u].edges);
                    assert(pre.task_wf(u));
                    assert(pre.slot_exists(pre.tasks@[u].edges@[j].0));
                }
            }
            assert(deps@ == if (i as int) < base {
                pre.tasks@[t as int].cells@[i as int].dependents@
            } else {
                Seq::<TaskId>::empty()
            });
            assert forall|m: int| 0 <= m < deps@.len() implies ((#[trigger] deps@[m]) as int)
                < mid.n_tasks() by {
                assert(pre.task_wf(t as int));
            }
            // the write advanced only the one slot
            assert forall|s: RawVc|
                pre.slot_exists(s) && s != RawVc::TaskCell(t, i) implies mid.slot_version(s)
                == pre.slot_version(s) by {
                match s {
                    RawVc::TaskOutput(w) => {
                        if w as int != t as int {
                            assert(mid.tasks@[w as int] == pre.tasks@[w as int]);
                        }
                    },
                    RawVc::TaskCell(w, jj) => {
                        if w as int != t as int {
                            assert(mid.tasks@[w as int] == pre.tasks@[w as int]);
                        } else {
                            assert(jj as int != i as int || w as int != t as int || s == RawVc::TaskCell(t, i));
                            if jj as int != i as int {
                                assert((jj as int) < base);
                                assert(mid.tasks@[t as int].cells@[jj as int]
                                    == pre.tasks@[t as int].cells@[jj as int]);
                            }
                        }
                    },
                }
            }
            // completeness: every Done task now stale reads this slot, so it
            // is in the dependents list
            assert forall|u: int|
                0 <= u < mid.n_tasks() && mid.tasks@[u].state is Done && !mid.task_clean(u)
                implies deps@.contains(u as TaskId) by {
                assert(mid.tasks@[u].state == pre.tasks@[u].state);
                assert(pre.task_wf(u));
                assert(pre.task_clean(u));
                assert(mid.tasks@[u].edges == pre.tasks@[u].edges);
                let j = choose|j: int|
                    0 <= j < mid.tasks@[u].edges@.len() && !mid.edge_current(
                        mid.tasks@[u].edges@[j],
                    );
                let e = pre.tasks@[u].edges@[j];
                assert(pre.edge_current(e));
                assert(pre.slot_exists(e.0));
                assert(e.0 == RawVc::TaskCell(t, i));
                assert((i as int) < base);
                assert(pre.slot_dependents(e.0).contains(u as TaskId));
            }
        }
        self.mark_stale_dependents(&deps);
        proof {
            let post = *self;
            assert forall|w: int| 0 <= w < mid.n_tasks() implies post.task_clean(w)
                == mid.task_clean(w) by {
                lemma_state_change_keeps_clean(mid, post, w);
            }
            assert(states_marked(pre, post)) by {
                assert forall|u: int| 0 <= u < pre.n_tasks() implies (#[trigger] post.tasks@[u]).state
                    == (if pre.tasks@[u].state is Done && !post.task_clean(u) {
                    TaskState::Dirty
                } else {
                    pre.tasks@[u].state
                }) by {
                    assert(mid.tasks@[u].state == pre.tasks@[u].state);
                }
            }
            assert(cell_written(pre, post, t, i, ty, payload@)) by {
                assert(same_but_state(mid.tasks@[t as int], post.tasks@[t as int]));
                assert forall|u: int| 0 <= u < pre.n_tasks() && u != t as int implies same_but_state(
                    pre.tasks@[u],
                    #[trigger] post.tasks@[u],
                ) by {
                    assert(mid.tasks@[u] == pre.tasks@[u]);
                    assert(same_but_state(mid.tasks@[u], post.tasks@[u]));
                }
            }
            assert(post.wf()) by {
                assert forall|u: int| 0 <= u < post.n_tasks() implies post.task_wf(u) by {
                    assert(pre.task_wf(u));
                    assert(same_but_state(mid.tasks@[u], post.tasks@[u]));
                    // slots kept or grew, dependents kept or fresh-empty
                    assert forall|j: int| 0 <= j < post.tasks@[u].edges@.len() implies {
                        &&& #[trigger] post.slot_exists(post.tasks@[u].edges@[j].0)
                        &&& post.slot_dependents(post.tasks@[u].edges@[j].0).contains(u as TaskId)
                    } by {
                        assert(post.tasks@[u].edges == pre.tasks@[u].edges);
                        let e = pre.tasks@[u].edges@[j];
                        assert(pre.slot_exists(e.0));
                        assert(pre.slot_dependents(e.0).contains(u as TaskId));
                        let w = e.0.spec_task_id() as int;
                        if w != t as int {
                            assert(post.tasks@[w].output.dependents@
                                == pre.tasks@[w].output.dependents@);
                            assert(post.tasks@[w].cells == pre.tasks@[w].cells);
                        } else {
                            match e.0 {
                                RawVc::TaskOutput(_) => {
                                    assert(post.tasks@[w].output.dependents@
                                        == pre.tasks@[w].output.dependents@);
                                },
                                RawVc::TaskCell(_, jj) => {
                                    assert((jj as int) < base);
                                    if jj as int == i as int {
                                        assert(post.tasks@[w].cells@[jj as int].dependents@
                                            == pre.tasks@[w].cells@[jj as int].dependents@);
                                    } else {
                                        assert(post.tasks@[w].cells@[jj as int]
                                            == pre.tasks@[w].cells@[jj as int]);
                                    }
                                },
                            }
                        }
                    }
                    if post.tasks@[u].state is Done {
                        assert(pre.tasks@[u].state is Done);
                        assert(post.task_clean(u));
                        assert(post.tasks@[u].output.value is Some || post.tasks@[u].error is Some);
                    }
                }
                assert(post.keys_unique()) by {
                    assert forall|a: int, b: int| 0 <= a < b < post.n_tasks() implies !(
                    #[trigger] post.tasks@[b].key_matches(
                        post.tasks@[a].function,
                        post.tasks@[a].fingerprint,
                    )) by {
                        assert(!pre.tasks@[b].key_matches(
                            pre.tasks@[a].function,
                            pre.tasks@[a].fingerprint,
                        ));
                    }
                }
                if pre.current_task is Some {
                    let c = pre.current_task->Some_0 as int;
                    assert(pre.tasks@[c].state is Running);
                    assert(post.tasks@[c].state is Running);
                }
            }
            assert(versions_monotone(pre, post)) by {
                assert forall|u: int| 0 <= u < pre.n_tasks() implies {
                    &&& (#[trigger] post.tasks@[u]).output.version >= pre.tasks@[u].output.version
                    &&& post.tasks@[u].cells@.len() >= pre.tasks@[u].cells@.len()
                    &&& forall|jj: int|
                        0 <= jj < pre.tasks@[u].cells@.len()
                            ==> (#[trigger] post.tasks@[u].cells@[jj]).version
                            >= pre.tasks@[u].cells@[jj].version
                } by {
                    if u != t as int {
                        assert(mid.tasks@[u] == pre.tasks@[u]);
                    }
                    assert(same_but_state(mid.tasks@[u], post.tasks@[u]));
                }
            }
        }
    }
}



impl TurboTasks {
    /// Publish the task's resolved output handle.
    ///
    /// Re-publishing the handle the slot already holds changes nothing;
    /// otherwise the handle is installed, the output version advances, and
    /// stale Done readers are marked Dirty.
    pub fn publish_output(&mut self, t: TaskId, h: RawVc)
        requires
            old(self).wf(),
            old(self).valid_task(t),
            old(self).valid_handle(h),
        ensures
            final(self).wf(),
            same_keys(*old(self), *final(self)),
            versions_monotone(*old(self), *final(self)),
            executions_monotone(*old(self), *final(self)),
            final(self).current_task == old(self).current_task,
            running_preserved(*old(self), *final(self)),
            running_untouched(*old(self), *final(self)),
            old(self).tasks@[t as int].output.value == Some(h) ==> *final(self) == *old(self),
            old(self).tasks@[t as int].output.value != Some(h) ==> output_written(
                *old(self),
                *final(self),
                t,
                h,
            ),
            old(self).no_running() ==> final(self).no_running(),
    {
        let ghost pre = *self;
        let equal = match &self.tasks[t].output.value {
            Some(v) => *v == h,
            None => false,
        };
        if equal {
            return ;
        }
        let oldv: u64 = self.tasks[t].output.version;
        let newv: u64 = if oldv < 0xffff_ffff_ffff_ffffu64 {
            oldv + 1
        } else {
            oldv
        };
        self.tasks[t].output.value = Some(h);
        self.tasks[t].output.version = newv;
        let ghost mid = *self;
        let deps = clone_ids(&self.tasks[t].output.dependents);
        proof {
            assert(mid.edges_valid()) by {
                assert forall|u: int, j: int|
                    0 <= u < mid.n_tasks() && 0 <= j < mid.tasks@[u].edges@.len() implies mid
                    .valid_handle((#[trigger] mid.tasks@[u].edges@[j]).0) by {
                    assert(mid.tasks@[u].edges == pre.tasks@[u].edges);
                    assert(pre.task_wf(u));
                    assert(pre.slot_exists(pre.tasks@[u].edges@[j].0));
                }
            }
            assert(deps@ == pre.tasks@[t as int].output.dependents@);
            assert forall|m: int| 0 <= m < deps@.len() implies ((#[trigger] deps@[m]) as int)
                < mid.n_tasks() by {
                assert(pre.task_wf(t as int));
            }
            assert forall|s: RawVc|
                pre.slot_exists(s) && s != RawVc::TaskOutput(t) implies mid.slot_version(s)
                == pre.slot_version(s) by {
                match s {
                    RawVc::TaskOutput(w) => {
                        assert(w as int != t as int);
                        assert(mid.tasks@[w as int] == pre.tasks@[w as int]);
                    },
                    RawVc::TaskCell(w, jj) => {
                        if w as int != t as int {
                            assert(mid.tasks@[w as int] == pre.tasks@[w as int]);
                        } else {
                            assert(mid.tasks@[w as int].cells == pre.tasks@[w as int].cells);
                        }
                    },
                }
            }
            assert forall|u: int|
                0 <= u < mid.n_tasks() && mid.tasks@[u].state is Done && !mid.task_clean(u)
                implies deps@.contains(u as TaskId) by {
                assert(mid.tasks@[u].state == pre.tasks@[u].state);
                assert(pre.task_wf(u));
                assert(pre.task_clean(u));
                assert(mid.tasks@[u].edges == pre.tasks@[u].edges);
                let j = choose|j: int|
                    0 <= j < mid.tasks@[u].edges@.len() && !mid.edge_current(
                        mid.tasks@[u].edges@[j],
                    );
                let e = pre.tasks@[u].edges@[j];
                assert(pre.edge_current(e));
                assert(pre.slot_exists(e.0));
                assert(e.0 == RawVc::TaskOutput(t));
                assert(pre.slot_dependents(e.0).contains(u as TaskId));
            }
        }
        self.mark_stale_dependents(&deps);
        proof {
            let post = *self;
            assert forall|w: int| 0 <= w < mid.n_tasks() implies post.task_clean(w)
                == mid.task_clean(w) by {
                lemma_state_change_keeps_clean(mid, post, w);
            }
            assert(states_marked(pre, post)) by {
                assert forall|u: int| 0 <= u < pre.n_tasks() implies (#[trigger] post.tasks@[u]).state
                    == (if pre.tasks@[u].state is Done && !post.task_clean(u) {
                    TaskState::Dirty
                } else {
                    pre.tasks@[u].state
                }) by {
                    assert(mid.tasks@[u].state == pre.tasks@[u].state);
                }
            }
            assert(output_written(pre, post, t, h)) by {
                assert(same_but_state(mid.tasks@[t as int], post.tasks@[t as int]));
                assert forall|u: int| 0 <= u < pre.n_tasks() && u != t as int implies same_but_state(
                    pre.tasks@[u],
                    #[trigger] post.tasks@[u],
                ) by {
                    assert(mid.tasks@[u] == pre.tasks@[u]);
                    assert(same_but_state(mid.tasks@[u], post.tasks@[u]));
                }
            }
            assert(post.wf()) by {
                assert forall|u: int| 0 <= u < post.n_tasks() implies post.task_wf(u) by {
                    assert(pre.task_wf(u));
                    assert(same_but_state(mid.tasks@[u], post.tasks@[u]));
                    assert forall|j: int| 0 <= j < post.tasks@[u].edges@.len() implies {
                        &&& #[trigger] post.slot_exists(post.tasks@[u].edges@[j].0)
                        &&& post.slot_dependents(post.tasks@[u].edges@[j].0).contains(u as TaskId)
                    } by {
                        assert(post.tasks@[u].edges == pre.tasks@[u].edges);
                        let e = pre.tasks@[u].edges@[j];
                        assert(pre.slot_exists(e.0));
                        assert(pre.slot_dependents(e.0).contains(u as TaskId));
                        let w = e.0.spec_task_id() as int;
                        if w != t as int {
                            assert(post.tasks@[w].output.dependents@
                                == pre.tasks@[w].output.dependents@);
                            assert(post.tasks@[w].cells == pre.tasks@[w].cells);
                        } else {
                            assert(post.tasks@[w].output.dependents@
                                == pre.tasks@[w].output.dependents@);
                            assert(post.tasks@[w].cells == pre.tasks@[w].cells);
                        }
                    }
                    if post.tasks@[u].state is Done {
                        assert(pre.tasks@[u].state is Done);
                        assert(post.task_clean(u));
                        assert(post.tasks@[u].output.value is Some || post.tasks@[u].error is Some);
                    }
                }
                assert(post.keys_unique()) by {
                    assert forall|a: int, b: int| 0 <= a < b < post.n_tasks() implies !(
                    #[trigger] post.tasks@[b].key_matches(
                        post.tasks@[a].function,
                        post.tasks@[a].fingerprint,
                    )) by {
                        assert(!pre.tasks@[b].key_matches(
                            pre.tasks@[a].function,
                            pre.tasks@[a].fingerprint,
                        ));
                    }
                }
                if pre.current_task is Some {
                    let c = pre.current_task->Some_0 as int;
                    assert(pre.tasks@[c].state is Running);
                    assert(post.tasks@[c].state is Running);
                }
            }
            assert(versions_monotone(pre, post)) by {
                assert forall|u: int| 0 <= u < pre.n_tasks() implies {
                    &&& (#[trigger] post.tasks@[u]).output.version >= pre.tasks@[u].output.version
                    &&& post.tasks@[u].cells@.len() >= pre.tasks@[u].cells@.len()
                    &&& forall|jj: int|
                        0 <= jj < pre.tasks@[u].cells@.len()
                            ==> (#[trigger] post.tasks@[u].cells@[jj]).version
                            >= pre.tasks@[u].cells@[jj].version
                } by {
                    if u != t as int {
                        assert(mid.tasks@[u] == pre.tasks@[u]);
                    }
                    assert(same_but_state(mid.tasks@[u], post.tasks@[u]));
                }
            }
        }
    }

    /// Externally invalidate cell `i` of task `t`: advance the version
    /// without touching the content, and mark stale Done readers Dirty.
    /// Invalidating a slot that does not exist does nothing.
    pub fn invalidate(&mut self, t: TaskId, i: usize)
        requires
            old(self).wf(),
            old(self).valid_task(t),
        ensures
            final(self).wf(),
            same_keys(*old(self), *final(self)),
            versions_monotone(*old(self), *final(self)),
            executions_monotone(*old(self), *final(self)),
            final(self).current_task == old(self).current_task,
            running_preserved(*old(self), *final(self)),
            running_untouched(*old(self), *final(self)),
            !old(self).slot_exists(RawVc::TaskCell(t, i)) ==> *final(self) == *old(self),
            old(self).slot_exists(RawVc::TaskCell(t, i)) ==> slot_invalidated(
                *old(self),
                *final(self),
                t,
                i,
            ),
            old(self).no_running() ==> final(self).no_running(),
    {
        let ghost pre = *self;
        if i >= self.tasks[t].cells.len() {
            return ;
        }
        let oldv: u64 = self.tasks[t].cells[i].version;
        let newv: u64 = if oldv < 0xffff_ffff_ffff_ffffu64 {
            oldv + 1
        } else {
            oldv
        };
        self.tasks[t].cells[i].version = newv;
        let ghost mid = *self;
        let deps = clone_ids(&self.tasks[t].cells[i].dependents);
        proof {
            assert(mid.edges_valid()) by {
                assert forall|u: int, j: int|
                    0 <= u < mid.n_tasks() && 0 <= j < mid.tasks@[u].edges@.len() implies mid
                    .valid_handle((#[trigger] mid.tasks@[u].edges@[j]).0) by {
                    assert(mid.tasks@[u].edges == pre.tasks@[u].edges);
                    assert(pre.task_wf(u));
                    assert(pre.slot_exists(pre.tasks@[u].edges@[j].0));
                }
            }
            assert(deps@ == pre.tasks@[t as int].cells@[i as int].dependents@);
            assert forall|m: int| 0 <= m < deps@.len() implies ((#[trigger] deps@[m]) as int)
                < mid.n_tasks() by {
                assert(pre.task_wf(t as int));
            }
            assert forall|s: RawVc|
                pre.slot_exists(s) && s != RawVc::TaskCell(t, i) implies mid.slot_version(s)
                == pre.slot_version(s) by {
                match s {
                    RawVc::TaskOutput(w) => {
                        if w as int != t as int {
                            assert(mid.tasks@[w as int] == pre.tasks@[w as int]);
                        }
                    },
                    RawVc::TaskCell(w, jj) => {
                        if w as int != t as int {
                            assert(mid.tasks@[w as int] == pre.tasks@[w as int]);
                        } else {
                            if jj as int != i as int {
                                assert(mid.tasks@[t as int].cells@[jj as int]
                                    == pre.tasks@[t as int].cells@[jj as int]);
                            }
                        }
                    },
                }
            }
            assert forall|u: int|
                0 <= u < mid.n_tasks() && mid.tasks@[u].state is Done && !mid.task_clean(u)
                implies deps@.contains(u as TaskId) by {
                assert(mid.tasks@[u].state == pre.tasks@[u].state);
                assert(pre.task_wf(u));
                assert(pre.task_clean(u));
                assert(mid.tasks@[u].edges == pre.tasks@[u].edges);
                let j = choose|j: int|
                    0 <= j < mid.tasks@[u].edges@.len() && !mid.edge_current(
                        mid.tasks@[u].edges@[j],
                    );
                let e = pre.tasks@[u].edges@[j];
                assert(pre.edge_current(e));
                assert(pre.slot_exists(e.0));
                assert(e.0 == RawVc::TaskCell(t, i));
                assert(pre.slot_dependents(e.0).contains(u as TaskId));
            }
        }
        self.mark_stale_dependents(&deps);
        proof {
            let post = *self;
            assert forall|w: int| 0 <= w < mid.n_tasks() implies post.task_clean(w)
                == mid.task_clean(w) by {
                lemma_state_change_keeps_clean(mid, post, w);
            }
            assert(states_marked(pre, post)) by {
                assert forall|u: int| 0 <= u < pre.n_tasks() implies (#[trigger] post.tasks@[u]).state
                    == (if pre.tasks@[u].state is Done && !post.task_clean(u) {
                    TaskState::Dirty
                } else {
                    pre.tasks@[u].state
                }) by {
                    assert(mid.tasks@[u].state == pre.tasks@[u].state);
                }
            }
            assert(slot_invalidated(pre, post, t, i)) by {
                assert(same_but_state(mid.tasks@[t as int], post.tasks@[t as int]));
                assert forall|u: int| 0 <= u < pre.n_tasks() && u != t as int implies same_but_state(
                    pre.tasks@[u],
                    #[trigger] post.tasks@[u],
                ) by {
                    assert(mid.tasks@[u] == pre.tasks@[u]);
                    assert(same_but_state(mid.tasks@[u], post.tasks@[u]));
                }
            }
            assert(post.wf()) by {
                assert forall|u: int| 0 <= u < post.n_tasks() implies post.task_wf(u) by {
                    assert(pre.task_wf(u));
                    assert(same_but_state(mid.tasks@[u], post.tasks@[u]));
                    assert forall|j: int| 0 <= j < post.tasks@[u].edges@.len() implies {
                        &&& #[trigger] post.slot_exists(post.tasks@[u].edges@[j].0)
                        &&& post.slot_dependents(post.tasks@[u].edges@[j].0).contains(u as TaskId)
                    } by {
                        assert(post.tasks@[u].edges == pre.tasks@[u].edges);
                        let e = pre.tasks@[u].edges@[j];
                        assert(pre.slot_exists(e.0));
                        assert(pre.slot_dependents(e.0).contains(u as TaskId));
                        let w = e.0.spec_task_id() as int;
                        if w != t as int {
                            assert(post.tasks@[w].output.dependents@
                                == pre.tasks@[w].output.dependents@);
                            assert(post.tasks@[w].cells == pre.tasks@[w].cells);
                        } else {
                            match e.0 {
                                RawVc::TaskOutput(_) => {
                                    assert(post.tasks@[w].output.dependents@
                                        == pre.tasks@[w].output.dependents@);
                                },
                                RawVc::TaskCell(_, jj) => {
                                    if jj as int == i as int {
                                        assert(post.tasks@[w].cells@[jj as int].dependents@
                                            == pre.tasks@[w].cells@[jj as int].dependents@);
                                    } else {
                                        assert(post.tasks@[w].cells@[jj as int]
                                            == pre.tasks@[w].cells@[jj as int]);
                                    }
                                },
                            }
                        }
                    }
                    if post.tasks@[u].state is Done {
                        assert(pre.tasks@[u].state is Done);
                        assert(post.task_clean(u));
                        assert(post.tasks@[u].output.value is Some || post.tasks@[u].error is Some);
                    }
                }
                assert(post.keys_unique()) by {
                    assert forall|a: int, b: int| 0 <= a < b < post.n_tasks() implies !(
                    #[trigger] post.tasks@[b].key_matches(
                        post.tasks@[a].function,
                        post.tasks@[a].fingerprint,
                    )) by {
                        assert(!pre.tasks@[b].key_matches(
                            pre.tasks@[a].function,
                            pre.tasks@[a].fingerprint,
                        ));
                    }
                }
                if pre.current_task is Some {
                    let c = pre.current_task->Some_0 as int;
                    assert(pre.tasks@[c].state is Running);
                    assert(post.tasks@[c].state is Running);
                }
            }
            assert(versions_monotone(pre, post)) by {
                assert forall|u: int| 0 <= u < pre.n_tasks() implies {
                    &&& (#[trigger] post.tasks@[u]).output.version >= pre.tasks@[u].output.version
                    &&& post.tasks@[u].cells@.len() >= pre.tasks@[u].cells@.len()
                    &&& forall|jj: int|
                        0 <= jj < pre.tasks@[u].cells@.len()
                            ==> (#[trigger] post.tasks@[u].cells@[jj]).version
                            >= pre.tasks@[u].cells@[jj].version
                } by {
                    if u != t as int {
                        assert(mid.tasks@[u] == pre.tasks@[u]);
                    }
                    assert(same_but_state(mid.tasks@[u], post.tasks@[u]));
                }
            }
        }
    }
}



impl TurboTasks {
    /// Record that `reader` observed `slot` at `version`: append the edge to
    /// the reader's read-set and register the reader on the slot's
    /// dependents list. The version must be the slot's current one — edges
    /// are recorded at read time.
    #[verifier::rlimit(100)]
    pub fn record_read(&mut self, reader: TaskId, slot: RawVc, version: u64)
        requires
            old(self).wf(),
            old(self).valid_task(reader),
            old(self).slot_exists(slot),
            version == old(self).slot_version(slot),
        ensures
            final(self).wf(),
            same_keys(*old(self), *final(self)),
            versions_monotone(*old(self), *final(self)),
            executions_monotone(*old(self), *final(self)),
            final(self).current_task == old(self).current_task,
            final(self).n_tasks() == old(self).n_tasks(),
            forall|u: int|
                0 <= u < old(self).n_tasks() ==> {
                    &&& (#[trigger] final(self).tasks@[u]).state == old(self).tasks@[u].state
                    &&& final(self).tasks@[u].error == old(self).tasks@[u].error
                    &&& final(self).tasks@[u].executions == old(self).tasks@[u].executions
                    &&& final(self).tasks@[u].output.value == old(self).tasks@[u].output.value
                    &&& final(self).tasks@[u].output.version == old(self).tasks@[u].output.version
                    &&& final(self).tasks@[u].cells@.len() == old(self).tasks@[u].cells@.len()
                    &&& forall|j: int|
                        0 <= j < old(self).tasks@[u].cells@.len() ==> {
                            &&& (#[trigger] final(self).tasks@[u].cells@[j]).content == old(
                                self,
                            ).tasks@[u].cells@[j].content
                            &&& final(self).tasks@[u].cells@[j].version == old(
                                self,
                            ).tasks@[u].cells@[j].version
                        }
                },
            final(self).tasks@[reader as int].edges@ == old(self).tasks@[reader as int].edges@.push(
                (slot, version),
            ),
            forall|u: int|
                0 <= u < old(self).n_tasks() && u != reader as int
                    ==> (#[trigger] final(self).tasks@[u]).edges == old(self).tasks@[u].edges,
            running_preserved(*old(self), *final(self)),
            running_untouched(*old(self), *final(self)),
            final(self).slot_dependents(slot) == old(self).slot_dependents(slot).push(reader),
            forall|s: RawVc|
                old(self).slot_exists(s) && s != slot ==> #[trigger] final(self).slot_dependents(s)
                    == old(self).slot_dependents(s),
            old(self).no_running() ==> final(self).no_running(),
    {
        let ghost pre = *self;
        self.tasks[reader].edges.push((slot, version));
        match slot {
            RawVc::TaskOutput(w) => {
                self.tasks[w].output.dependents.push(reader);
            },
            RawVc::TaskCell(w, i) => {
                self.tasks[w].cells[i].dependents.push(reader);
            },
        }
        proof {
            let post = *self;
            let ow = slot.spec_task_id() as int;
            // slots: only the one dependents list changed, nothing else
            assert forall|s: RawVc| pre.slot_exists(s) implies {
                &&& #[trigger] post.slot_exists(s)
                &&& post.slot_version(s) == pre.slot_version(s)
            } by {
                let w = s.spec_task_id() as int;
                match s {
                    RawVc::TaskOutput(_) => {},
                    RawVc::TaskCell(_, jj) => {
                        assert((jj as int) < post.tasks@[w].cells@.len());
                    },
                }
            }
            assert(post.slot_dependents(slot) =~= pre.slot_dependents(slot).push(reader)) by {
                match slot {
                    RawVc::TaskOutput(_) => {},
                    RawVc::TaskCell(_, i) => {},
                }
            }
            assert forall|s: RawVc| pre.slot_exists(s) && s != slot implies #[trigger] post
                .slot_dependents(s) == pre.slot_dependents(s) by {
                let w = s.spec_task_id() as int;
                match s {
                    RawVc::TaskOutput(_) => {},
                    RawVc::TaskCell(_, jj) => {},
                }
            }
            assert forall|u: int| 0 <= u < post.n_tasks() implies post.task_wf(u) by {
                assert(pre.task_wf(u));
                assert forall|j: int|
                    0 <= j < post.tasks@[u].output.dependents@.len() implies (#[trigger] post
                    .tasks@[u].output.dependents@[j] as int) < post.n_tasks() by {
                    if u == ow && slot is TaskOutput
                        && j == pre.tasks@[u].output.dependents@.len() {
                        assert(post.tasks@[u].output.dependents@[j] == reader);
                    } else {
                        assert(post.tasks@[u].output.dependents@[j]
                            == pre.tasks@[u].output.dependents@[j]);
                    }
                }
                assert forall|i2: int, j: int|
                    0 <= i2 < post.tasks@[u].cells@.len() && 0 <= j
                        < post.tasks@[u].cells@[i2].dependents@.len() implies (#[trigger] post
                    .tasks@[u].cells@[i2].dependents@[j] as int) < post.n_tasks() by {
                    if u == ow && (slot matches RawVc::TaskCell(_, ci) && i2 == ci as int
                        && j == pre.tasks@[u].cells@[i2].dependents@.len()) {
                        assert(post.tasks@[u].cells@[i2].dependents@[j] == reader);
                    } else {
                        assert(post.tasks@[u].cells@[i2].dependents@[j]
                            == pre.tasks@[u].cells@[i2].dependents@[j]);
                    }
                }
                assert forall|j: int| 0 <= j < post.tasks@[u].edges@.len() implies {
                    &&& #[trigger] post.slot_exists(post.tasks@[u].edges@[j].0)
                    &&& post.slot_dependents(post.tasks@[u].edges@[j].0).contains(u as TaskId)
                } by {
                    if u == reader as int && j == pre.tasks@[u].edges@.len() {
                        assert(post.tasks@[u].edges@[j] == (slot, version));
                        assert(post.slot_dependents(slot)
                            == pre.slot_dependents(slot).push(reader));
                        let last = pre.slot_dependents(slot).len() as int;
                        assert(post.slot_dependents(slot)[last] == reader);
                        assert(post.slot_dependents(slot).contains(reader));
                    } else {
                        let e = pre.tasks@[u].edges@[j];
                        assert(post.tasks@[u].edges@[j] == e);
                        assert(pre.slot_exists(e.0));
                        assert(pre.slot_dependents(e.0).contains(u as TaskId));
                        if e.0 == slot {
                            let k = choose|k: int|
                                0 <= k < pre.slot_dependents(slot).len() && pre.slot_dependents(
                                    slot,
                                )[k] == u as TaskId;
                            assert(post.slot_dependents(slot)[k] == u as TaskId);
                            assert(post.slot_dependents(slot).contains(u as TaskId));
                        } else {
                            assert(post.slot_dependents(e.0) == pre.slot_dependents(e.0));
                        }
                    }
                }
                assert((post.tasks@[u].function as int) < post.registry.functions@.len());
                if post.tasks@[u].output.value is Some {
                    assert(post.valid_handle(post.tasks@[u].output.value->Some_0));
                }
                if post.tasks@[u].state is Done {
                    assert(pre.task_clean(u));
                    assert forall|j: int|
                        0 <= j < post.tasks@[u].edges@.len() implies post.edge_current(
                        #[trigger] post.tasks@[u].edges@[j],
                    ) by {
                        if u == reader as int && j == pre.tasks@[u].edges@.len() {
                            assert(post.tasks@[u].edges@[j] == (slot, version));
                            assert(post.slot_version(slot) == pre.slot_version(slot));
                        } else {
                            assert(post.tasks@[u].edges@[j] == pre.tasks@[u].edges@[j]);
                            assert(pre.edge_current(pre.tasks@[u].edges@[j]));
                            assert(pre.slot_exists(pre.tasks@[u].edges@[j].0));
                        }
                    }
                    assert(post.task_clean(u));
                    assert(post.tasks@[u].output.value is Some || post.tasks@[u].error is Some);
                }
                assert(forall|j: int|
                    0 <= j < post.tasks@[u].edges@.len() ==> #[trigger] post.slot_exists(
                        post.tasks@[u].edges@[j].0,
                    ));
                assert forall|j: int|
                    0 <= j < post.tasks@[u].edges@.len() implies #[trigger] post.slot_dependents(
                    post.tasks@[u].edges@[j].0,
                ).contains(u as TaskId) by {
                    assert(post.slot_exists(post.tasks@[u].edges@[j].0));
                }
                assert(forall|j: int|
                    0 <= j < post.tasks@[u].output.dependents@.len()
                        ==> (#[trigger] post.tasks@[u].output.dependents@[j] as int)
                        < post.n_tasks());
                assert(forall|i2: int, j: int|
                    0 <= i2 < post.tasks@[u].cells@.len() && 0 <= j
                        < post.tasks@[u].cells@[i2].dependents@.len()
                        ==> (#[trigger] post.tasks@[u].cells@[i2].dependents@[j] as int)
                        < post.n_tasks());
                lemma_task_wf_one(post, u);
            }
            assert(post.keys_unique()) by {
                assert forall|a: int, b: int| 0 <= a < b < post.n_tasks() implies !(
                #[trigger] post.tasks@[b].key_matches(
                    post.tasks@[a].function,
                    post.tasks@[a].fingerprint,
                )) by {
                    assert(!pre.tasks@[b].key_matches(
                        pre.tasks@[a].function,
                        pre.tasks@[a].fingerprint,
                    ));
                }
            }
        }
    }

    /// Non-blocking read of a task's output slot.
    ///
    /// A Done task answers immediately: its handle, or its memoized error.
    /// A Dormant or Dirty task is scheduled and the caller must wait; an
    /// already Scheduled or Running task just makes the caller wait.
    ///
    /// The strongly-consistent flag does not change the answer of this
    /// primitive, and the contract therefore does not mention it: a Done
    /// task here never carries a stale edge, because completion re-checks
    /// the read-set and dirty propagation is eager. Strongly-consistent
    /// readers instead settle the engine first and then issue the read.
    pub fn try_read_task_output(&mut self, t: TaskId, strongly_consistent: bool) -> (r: TryRead<
        RawVc,
    >)
        requires
            old(self).wf(),
            old(self).valid_task(t),
        ensures
            final(self).wf(),
            same_keys(*old(self), *final(self)),
            versions_monotone(*old(self), *final(self)),
            executions_monotone(*old(self), *final(self)),
            final(self).current_task == old(self).current_task,
            final(self).n_tasks() == old(self).n_tasks(),
            forall|u: int|
                0 <= u < old(self).n_tasks() && u != t as int ==> final(self).tasks@[u] == old(
                    self,
                ).tasks@[u],
            same_but_state(old(self).tasks@[t as int], final(self).tasks@[t as int]),
            running_preserved(*old(self), *final(self)),
            running_untouched(*old(self), *final(self)),
            match old(self).tasks@[t as int].state {
                TaskState::Done => *final(self) == *old(self) && (match old(
                    self,
                ).tasks@[t as int].error {
                    Some(msg) => r == TryRead::<RawVc>::Failed(ReadError::TaskError(msg)),
                    None => r == TryRead::<RawVc>::Ready(
                        old(self).tasks@[t as int].output.value->Some_0,
                    ),
                }),
                TaskState::Dormant => r is Pending && final(self).tasks@[t as int].state
                    is Scheduled,
                TaskState::Dirty => r is Pending && final(self).tasks@[t as int].state
                    is Scheduled,
                TaskState::Scheduled => r is Pending && *final(self) == *old(self),
                TaskState::Running => r is Pending && *final(self) == *old(self),
            },
            old(self).no_running() ==> final(self).no_running(),
    {
        let ghost pre = *self;
        let state = self.tasks[t].state;
        match state {
            TaskState::Done => {
                let err = match &self.tasks[t].error {
                    Some(msg) => Some(msg.clone()),
                    None => None,
                };
                match err {
                    Some(msg) => TryRead::Failed(ReadError::TaskError(msg)),
                    None => {
                        let h = match &self.tasks[t].output.value {
                            Some(h) => *h,
                            None => {
                                proof {
                                    assert(pre.task_wf(t as int));
                                    assert(false);
                                }
                                RawVc::TaskOutput(t)
                            },
                        };
                        TryRead::Ready(h)
                    },
                }
            },
            TaskState::Dormant | TaskState::Dirty => {
                self.tasks[t].state = TaskState::Scheduled;
                proof {
                    let post = *self;
                    assert(pre.edges_valid()) by {
                        assert forall|u: int, j: int|
                            0 <= u < pre.n_tasks() && 0 <= j < pre.tasks@[u].edges@.len() implies
                            pre.valid_handle((#[trigger] pre.tasks@[u].edges@[j]).0) by {
                            assert(pre.task_wf(u));
                            assert(pre.slot_exists(pre.tasks@[u].edges@[j].0));
                        }
                    }
                    assert forall|w: int| 0 <= w < pre.n_tasks() implies post.task_clean(w)
                        == pre.task_clean(w) by {
                        lemma_state_change_keeps_clean(pre, post, w);
                    }
                    assert forall|u: int| 0 <= u < post.n_tasks() implies post.task_wf(u) by {
                        assert(pre.task_wf(u));
                        assert(same_but_state(pre.tasks@[u], post.tasks@[u]));
                        assert forall|j: int| 0 <= j < post.tasks@[u].edges@.len() implies {
                            &&& #[trigger] post.slot_exists(post.tasks@[u].edges@[j].0)
                            &&& post.slot_dependents(post.tasks@[u].edges@[j].0).contains(
                                u as TaskId,
                            )
                        } by {
                            let e = pre.tasks@[u].edges@[j];
                            assert(pre.slot_exists(e.0));
                            assert(pre.slot_dependents(e.0).contains(u as TaskId));
                            let w = e.0.spec_task_id() as int;
                            assert(same_but_state(pre.tasks@[w], post.tasks@[w]));
                        }
                        if post.tasks@[u].state is Done {
                            assert(pre.tasks@[u].state is Done);
                            assert(post.task_clean(u));
                        }
                    }
                    assert(post.keys_unique()) by {
                        assert forall|a: int, b: int| 0 <= a < b < post.n_tasks() implies !(
                        #[trigger] post.tasks@[b].key_matches(
                            post.tasks@[a].function,
                            post.tasks@[a].fingerprint,
                        )) by {
                            assert(!pre.tasks@[b].key_matches(
                                pre.tasks@[a].function,
                                pre.tasks@[a].fingerprint,
                            ));
                        }
                    }
                }
                TryRead::Pending
            },
            TaskState::Scheduled | TaskState::Running => TryRead::Pending,
        }
    }

    /// Non-blocking read of cell `i` of task `t`: the current payload if
    /// present; "wait" while the owner is scheduled, dirty or running and
    /// could still publish it; otherwise the cell is empty for good and the
    /// read fails with NoContent.
    pub fn try_read_task_cell(&self, t: TaskId, i: usize) -> (r: TryRead<SharedReference>)
        requires
            self.wf(),
            self.valid_task(t),
        ensures
            match self.cell_content(t as int, i as int) {
                Some(c) => r matches TryRead::Ready(p) && p.0 == c.0 && p.1@ == c.1@,
                None => match self.tasks@[t as int].state {
                    TaskState::Scheduled | TaskState::Dirty | TaskState::Running => r is Pending,
                    TaskState::Done | TaskState::Dormant => r == TryRead::<
                        SharedReference,
                    >::Failed(ReadError::NoContent),
                },
            },
    {
        if i < self.tasks[t].cells.len() {
            let has = match &self.tasks[t].cells[i].content {
                Some(_) => true,
                None => false,
            };
            if has {
                let c = match &self.tasks[t].cells[i].content {
                    Some(c) => clone_shared_ref(c),
                    None => {
                        proof {
                            assert(false);
                        }
                        SharedReference(None, Vec::new())
                    },
                };
                return TryRead::Ready(c);
            }
        }
        match self.tasks[t].state {
            TaskState::Scheduled | TaskState::Dirty | TaskState::Running => TryRead::Pending,
            TaskState::Done | TaskState::Dormant => TryRead::Failed(ReadError::NoContent),
        }
    }

    /// The payload currently stored in a cell, if any.
    pub open spec fn cell_content(self, t: int, i: int) -> Option<SharedReference> {
        if i < self.tasks@[t].cells@.len() {
            self.tasks@[t].cells@[i].content
        } else {
            None
        }
    }

    /// A hint that the caller is about to wait; ready-queue flushes would
    /// happen here. This engine dispatches eagerly, so there is nothing to
    /// flush.
    pub fn notify_scheduled_tasks(&self) {
    }
}



/// Assembles `task_wf` from its clauses.
proof fn lemma_task_wf_one(s: TurboTasks, u: int)
    requires
        0 <= u < s.n_tasks(),
        (s.tasks@[u].function as int) < s.registry.functions@.len(),
        s.tasks@[u].output.value matches Some(h) ==> s.valid_handle(h),
        forall|j: int|
            0 <= j < s.tasks@[u].edges@.len() ==> #[trigger] s.slot_exists(
                s.tasks@[u].edges@[j].0,
            ),
        forall|j: int|
            0 <= j < s.tasks@[u].edges@.len() ==> #[trigger] s.slot_dependents(
                s.tasks@[u].edges@[j].0,
            ).contains(u as TaskId),
        forall|j: int|
            0 <= j < s.tasks@[u].output.dependents@.len()
                ==> (#[trigger] s.tasks@[u].output.dependents@[j] as int) < s.n_tasks(),
        forall|i: int, j: int|
            0 <= i < s.tasks@[u].cells@.len() && 0 <= j < s.tasks@[u].cells@[i].dependents@.len()
                ==> (#[trigger] s.tasks@[u].cells@[i].dependents@[j] as int) < s.n_tasks(),
        s.tasks@[u].state is Done ==> s.task_clean(u),
        s.tasks@[u].state is Done ==> (s.tasks@[u].output.value is Some || s.tasks@[u].error
            is Some),
    ensures
        s.task_wf(u),
{
    assert forall|j: int| 0 <= j < s.tasks@[u].edges@.len() implies {
        &&& #[trigger] s.slot_exists(s.tasks@[u].edges@[j].0)
        &&& s.slot_dependents(s.tasks@[u].edges@[j].0).contains(u as TaskId)
    } by {
        assert(s.slot_exists(s.tasks@[u].edges@[j].0));
        assert(s.slot_dependents(s.tasks@[u].edges@[j].0).contains(u as TaskId));
    }
}

/// No task is newly mid-execution: at matching return points, whoever runs
/// was already running before.
pub open spec fn no_new_running(a: TurboTasks, b: TurboTasks) -> bool {
    forall|t: int|
        0 <= t < a.n_tasks() && (#[trigger] b.tasks@[t]).state is Running
            ==> a.tasks@[t].state is Running
}

/// An update local to one task that leaves every slot (output, cells,
/// dependents) untouched preserves per-task well-formedness, as long as the
/// task itself respects the Done discipline.
proof fn lemma_local_update_wf(pre: TurboTasks, post: TurboTasks, t: int)
    requires
        forall|u: int| 0 <= u < pre.n_tasks() ==> pre.task_wf(u),
        pre.keys_unique(),
        post.n_tasks() == pre.n_tasks(),
        post.registry == pre.registry,
        0 <= t < pre.n_tasks(),
        forall|u: int|
            0 <= u < pre.n_tasks() && u != t ==> (#[trigger] post.tasks@[u]) == pre.tasks@[u],
        post.tasks@[t].output == pre.tasks@[t].output,
        post.tasks@[t].cells@.len() == pre.tasks@[t].cells@.len(),
        forall|j: int|
            0 <= j < pre.tasks@[t].cells@.len() ==> {
                &&& (#[trigger] post.tasks@[t].cells@[j]).version
                    == pre.tasks@[t].cells@[j].version
                &&& post.tasks@[t].cells@[j].dependents == pre.tasks@[t].cells@[j].dependents
            },
        post.tasks@[t].function == pre.tasks@[t].function,
        post.tasks@[t].fingerprint == pre.tasks@[t].fingerprint,
        post.tasks@[t].edges@ == pre.tasks@[t].edges@ || post.tasks@[t].edges@ == Seq::<(
            RawVc,
            u64,
        )>::empty(),
        post.tasks@[t].state is Done ==> (post.task_clean(t) && (post.tasks@[t].output.value
            is Some || post.tasks@[t].error is Some)),
    ensures
        forall|u: int| 0 <= u < post.n_tasks() ==> post.task_wf(u),
        post.keys_unique(),
{
    assert forall|sl: RawVc| pre.slot_exists(sl) implies {
        &&& post.slot_exists(sl)
        &&& post.slot_version(sl) == pre.slot_version(sl)
        &&& post.slot_dependents(sl) == pre.slot_dependents(sl)
    } by {
        let w = sl.spec_task_id() as int;
        if w != t {
            assert(post.tasks@[w] == pre.tasks@[w]);
        } else {
            assert(post.tasks@[w].output == pre.tasks@[w].output);
            match sl {
                RawVc::TaskOutput(_) => {},
                RawVc::TaskCell(_, jj) => {
                    assert(post.tasks@[w].cells@[jj as int].version
                        == pre.tasks@[w].cells@[jj as int].version);
                },
            }
        }
    }
    assert forall|u: int| 0 <= u < post.n_tasks() implies post.task_wf(u) by {
        assert(pre.task_wf(u));
        let edges = post.tasks@[u].edges@;
        assert forall|j: int| 0 <= j < edges.len() implies {
            &&& #[trigger] post.slot_exists(edges[j].0)
            &&& post.slot_dependents(edges[j].0).contains(u as TaskId)
        } by {
            assert(edges[j] == pre.tasks@[u].edges@[j]);
            assert(pre.slot_exists(pre.tasks@[u].edges@[j].0));
            assert(pre.slot_dependents(pre.tasks@[u].edges@[j].0).contains(u as TaskId));
        }
        if post.tasks@[u].state is Done {
            if u != t {
                assert(post.tasks@[u] == pre.tasks@[u]);
                assert(pre.task_clean(u));
                assert forall|j: int| 0 <= j < edges.len() implies post.edge_current(
                    #[trigger] edges[j],
                ) by {
                    assert(pre.edge_current(pre.tasks@[u].edges@[j]));
                    assert(pre.slot_exists(pre.tasks@[u].edges@[j].0));
                }
                assert(post.task_clean(u));
            } else {
                assert(post.task_clean(u));
            }
        }
        lemma_task_wf_one(post, u);
    }
    assert forall|a: int, b: int| 0 <= a < b < post.n_tasks() implies !(
    #[trigger] post.tasks@[b].key_matches(post.tasks@[a].function, post.tasks@[a].fingerprint)) by {
        assert(!pre.tasks@[b].key_matches(pre.tasks@[a].function, pre.tasks@[a].fingerprint));
    }
}

impl TurboTasks {
    /// The first task waiting for a worker, if any.
    pub fn find_ready(&self) -> (r: Option<TaskId>)
        ensures
            match r {
                Some(t) => self.valid_task(t) && self.task_ready(t as int),
                None => self.no_ready(),
            },
    {
        let n: usize = self.tasks.len();
        let mut t: usize = 0;
        while t < n
            invariant
                n == self.tasks@.len(),
                t <= n,
                forall|j: int| 0 <= j < t ==> !self.task_ready(j),
            decreases n - t,
        {
            let ready = match self.tasks[t].state {
                TaskState::Scheduled | TaskState::Dirty => true,
                _ => false,
            };
            if ready {
                return Some(t);
            }
            t = t + 1;
        }
        None
    }
}

/// Whether a list of cell indices contains an index.
fn ids_contain(v: &Vec<usize>, x: usize) -> (r: bool)
    ensures
        r == v@.contains(x),
{
    let mut i: usize = 0;
    while i < v.len()
        invariant
            i <= v@.len(),
            forall|j: int| 0 <= j < i ==> v@[j] != x,
        decreases v@.len() - i,
    {
        if v[i] == x {
            assert(v@.contains(x));
            return true;
        }
        i = i + 1;
    }
    assert(!v@.contains(x));
    false
}

/// The body has no read steps: its control flow is a function of the
/// program alone.
pub open spec fn body_no_reads(body: Seq<TaskStep>) -> bool {
    forall|j: int|
        0 <= j < body.len() ==> !((#[trigger] body[j]) is ReadOutput || body[j] is ReadCell)
}

/// Publish indices stay below the machine limit and output targets stay
/// inside the table: such a body cannot fail for machine reasons.
pub open spec fn body_targets_ok(body: Seq<TaskStep>, n: int) -> bool {
    forall|j: int|
        0 <= j < body.len() ==> match #[trigger] body[j] {
            TaskStep::PublishAcc(i, _) => (i as int) < usize::MAX as int,
            TaskStep::PublishBytes(i, _, _) => (i as int) < usize::MAX as int,
            TaskStep::OutputTask(u) => (u as int) < n,
            _ => true,
        }
}

/// The control outcome of a read-free body, step by step: the output
/// handle it installs and the failure message it stops at, if any.
pub open spec fn body_control(t: TaskId, body: Seq<TaskStep>) -> (Option<RawVc>, Option<Seq<char>>)
    decreases body.len(),
{
    if body.len() == 0 {
        (None::<RawVc>, None::<Seq<char>>)
    } else {
        let prev = body_control(t, body.drop_last());
        if prev.1 is Some {
            prev
        } else {
            match body.last() {
                TaskStep::OutputCell(i) => (Some(RawVc::TaskCell(t, i)), None),
                TaskStep::OutputTask(u) => (Some(RawVc::TaskOutput(u)), None),
                TaskStep::Fail(m) => (prev.0, Some(m@)),
                _ => prev,
            }
        }
    }
}

/// A copy of one body step.
fn clone_step(s: &TaskStep) -> (r: TaskStep)
    ensures
        step_equiv(*s, r),
{
    match s {
        TaskStep::ReadOutput(u) => TaskStep::ReadOutput(*u),
        TaskStep::ReadCell(u, i) => TaskStep::ReadCell(*u, *i),
        TaskStep::AddAcc(k) => TaskStep::AddAcc(*k),
        TaskStep::MulAcc(k) => TaskStep::MulAcc(*k),
        TaskStep::PublishAcc(i, ty) => TaskStep::PublishAcc(*i, *ty),
        TaskStep::PublishBytes(i, ty, bytes) => TaskStep::PublishBytes(*i, *ty, clone_bytes(bytes)),
        TaskStep::OutputCell(i) => TaskStep::OutputCell(*i),
        TaskStep::OutputTask(u) => TaskStep::OutputTask(*u),
        TaskStep::Fail(msg) => TaskStep::Fail(msg.clone()),
    }
}

/// Two steps describe the same instruction.
pub open spec fn step_equiv(a: TaskStep, b: TaskStep) -> bool {
    match (a, b) {
        (TaskStep::ReadOutput(x), TaskStep::ReadOutput(y)) => x == y,
        (TaskStep::ReadCell(x, i), TaskStep::ReadCell(y, j)) => x == y && i == j,
        (TaskStep::AddAcc(x), TaskStep::AddAcc(y)) => x == y,
        (TaskStep::MulAcc(x), TaskStep::MulAcc(y)) => x == y,
        (TaskStep::PublishAcc(i, x), TaskStep::PublishAcc(j, y)) => i == j && x == y,
        (TaskStep::PublishBytes(i, x, bx), TaskStep::PublishBytes(j, y, by)) => i == j && x == y
            && bx@ == by@,
        (TaskStep::OutputCell(i), TaskStep::OutputCell(j)) => i == j,
        (TaskStep::OutputTask(x), TaskStep::OutputTask(y)) => x == y,
        (TaskStep::Fail(mx), TaskStep::Fail(my)) => mx@ == my@,
        _ => false,
    }
}

/// The integer a payload carries: its eight little-endian bytes, or zero
/// for payloads of any other length.
pub open spec fn spec_payload_u64(s: Seq<u8>) -> u64 {
    if s.len() == 8 {
        vstd::bytes::spec_u64_from_le_bytes(s)
    } else {
        0
    }
}

/// Decode a payload into the accumulator.
pub fn payload_to_u64(v: &Vec<u8>) -> (r: u64)
    ensures
        r == spec_payload_u64(v@),
{
    if v.len() == 8 {
        vstd::bytes::u64_from_le_bytes(v.as_slice())
    } else {
        0
    }
}

/// The cause a reader hands on when a dependency read fails.
fn read_error_message(e: &ReadError) -> (r: String)
    ensures
        e matches ReadError::TaskError(m) ==> r@ == m@,
{
    match e {
        ReadError::TaskError(m) => m.clone(),
        ReadError::NoContent => String::from_str("read a cell with no content"),
        ReadError::TypeMismatch => String::from_str("read a cell of an unexpected value type"),
        ReadError::CycleDetected => String::from_str("read depends on a task that is executing"),
        ReadError::FuelExhausted => String::from_str("ran out of scheduling budget"),
    }
}



/// When edges and all slot versions agree between two states, so does
/// cleanliness.
proof fn lemma_same_versions_keeps_clean(a: TurboTasks, b: TurboTasks, u: int)
    requires
        0 <= u < a.n_tasks(),
        b.tasks@[u].edges == a.tasks@[u].edges,
        forall|j: int|
            0 <= j < a.tasks@[u].edges@.len() ==> #[trigger] a.slot_exists(
                a.tasks@[u].edges@[j].0,
            ),
        forall|sl: RawVc| a.slot_exists(sl) ==> #[trigger] b.slot_version(sl) == a.slot_version(
            sl,
        ),
    ensures
        b.task_clean(u) == a.task_clean(u),
{
    if a.task_clean(u) {
        assert forall|j: int| 0 <= j < b.tasks@[u].edges@.len() implies b.edge_current(
            b.tasks@[u].edges@[j],
        ) by {
            assert(a.edge_current(a.tasks@[u].edges@[j]));
            assert(a.slot_exists(a.tasks@[u].edges@[j].0));
        }
    }
    if b.task_clean(u) {
        assert forall|j: int| 0 <= j < a.tasks@[u].edges@.len() implies a.edge_current(
            a.tasks@[u].edges@[j],
        ) by {
            assert(b.edge_current(b.tasks@[u].edges@[j]));
            assert(a.slot_exists(a.tasks@[u].edges@[j].0));
        }
    }
}

/// The value-frame relations (keys, versions, execution counters) compose.
proof fn lemma_values_trans(a: TurboTasks, b: TurboTasks, c: TurboTasks)
    requires
        same_keys(a, b),
        same_keys(b, c),
        versions_monotone(a, b),
        versions_monotone(b, c),
        executions_monotone(a, b),
        executions_monotone(b, c),
    ensures
        same_keys(a, c),
        versions_monotone(a, c),
        executions_monotone(a, c),
{
    assert forall|t: int| 0 <= t < a.n_tasks() implies {
        &&& (#[trigger] c.tasks@[t]).output.version >= a.tasks@[t].output.version
        &&& c.tasks@[t].cells@.len() >= a.tasks@[t].cells@.len()
        &&& forall|i: int|
            0 <= i < a.tasks@[t].cells@.len() ==> (#[trigger] c.tasks@[t].cells@[i]).version
                >= a.tasks@[t].cells@[i].version
    } by {
        assert(b.tasks@[t].output.version >= a.tasks@[t].output.version);
        assert(c.tasks@[t].output.version >= b.tasks@[t].output.version);
        assert forall|i: int|
            0 <= i < a.tasks@[t].cells@.len() implies (#[trigger] c.tasks@[t].cells@[i]).version
            >= a.tasks@[t].cells@[i].version by {
            assert(b.tasks@[t].cells@[i].version >= a.tasks@[t].cells@[i].version);
            assert(c.tasks@[t].cells@[i].version >= b.tasks@[t].cells@[i].version);
        }
    }
}

/// The engine-frame relations compose.
proof fn lemma_frames_trans(a: TurboTasks, b: TurboTasks, c: TurboTasks)
    requires
        same_keys(a, b),
        same_keys(b, c),
        versions_monotone(a, b),
        versions_monotone(b, c),
        executions_monotone(a, b),
        executions_monotone(b, c),
        running_preserved(a, b),
        running_preserved(b, c),
        no_new_running(a, b),
        no_new_running(b, c),
        running_untouched(a, b),
        running_untouched(b, c),
    ensures
        same_keys(a, c),
        versions_monotone(a, c),
        executions_monotone(a, c),
        running_preserved(a, c),
        no_new_running(a, c),
        running_untouched(a, c),
{
    assert forall|t: int| 0 <= t < a.n_tasks() && a.tasks@[t].state is Running implies (
    #[trigger] c.tasks@[t]).executions == a.tasks@[t].executions by {
        assert(b.tasks@[t].state is Running);
        assert(b.tasks@[t].executions == a.tasks@[t].executions);
        assert(c.tasks@[t].executions == b.tasks@[t].executions);
    }
    assert forall|t: int| 0 <= t < a.n_tasks() implies {
        &&& (#[trigger] c.tasks@[t]).output.version >= a.tasks@[t].output.version
        &&& c.tasks@[t].cells@.len() >= a.tasks@[t].cells@.len()
        &&& forall|i: int|
            0 <= i < a.tasks@[t].cells@.len() ==> (#[trigger] c.tasks@[t].cells@[i]).version
                >= a.tasks@[t].cells@[i].version
    } by {
        assert(b.tasks@[t].output.version >= a.tasks@[t].output.version);
        assert(c.tasks@[t].output.version >= b.tasks@[t].output.version);
        assert forall|i: int|
            0 <= i < a.tasks@[t].cells@.len() implies (#[trigger] c.tasks@[t].cells@[i]).version
            >= a.tasks@[t].cells@[i].version by {
            assert(b.tasks@[t].cells@[i].version >= a.tasks@[t].cells@[i].version);
            assert(c.tasks@[t].cells@[i].version >= b.tasks@[t].cells@[i].version);
        }
    }
}

impl TurboTasks {
    /// Clear the content of an existing cell, leaving version and
    /// dependents in place. Used when a re-execution stops publishing an
    /// index.
    fn clear_cell_content(&mut self, t: TaskId, i: usize)
        requires
            old(self).wf(),
            old(self).valid_task(t),
            (i as int) < old(self).tasks@[t as int].cells@.len(),
        ensures
            final(self).wf(),
            final(self).n_tasks() == old(self).n_tasks(),
            final(self).registry == old(self).registry,
            final(self).current_task == old(self).current_task,
            final(self).tasks@[t as int].cells@[i as int].content is None,
            final(self).tasks@[t as int].cells@[i as int].version == old(
                self,
            ).tasks@[t as int].cells@[i as int].version,
            final(self).tasks@[t as int].cells@[i as int].dependents == old(
                self,
            ).tasks@[t as int].cells@[i as int].dependents,
            forall|j: int|
                0 <= j < old(self).tasks@[t as int].cells@.len() && j != i as int
                    ==> (#[trigger] final(self).tasks@[t as int].cells@[j]) == old(
                    self,
                ).tasks@[t as int].cells@[j],
            final(self).tasks@[t as int].cells@.len() == old(self).tasks@[t as int].cells@.len(),
            final(self).tasks@[t as int].output == old(self).tasks@[t as int].output,
            final(self).tasks@[t as int].edges == old(self).tasks@[t as int].edges,
            final(self).tasks@[t as int].error == old(self).tasks@[t as int].error,
            final(self).tasks@[t as int].state == old(self).tasks@[t as int].state,
            final(self).tasks@[t as int].executions == old(self).tasks@[t as int].executions,
            final(self).tasks@[t as int].function == old(self).tasks@[t as int].function,
            final(self).tasks@[t as int].fingerprint == old(self).tasks@[t as int].fingerprint,
            forall|u: int|
                0 <= u < old(self).n_tasks() && u != t as int
                    ==> (#[trigger] final(self).tasks@[u]) == old(self).tasks@[u],
            same_keys(*old(self), *final(self)),
            versions_monotone(*old(self), *final(self)),
            executions_monotone(*old(self), *final(self)),
            running_preserved(*old(self), *final(self)),
            running_untouched(*old(self), *final(self)),
            no_new_running(*old(self), *final(self)),
    {
        let ghost pre = *self;
        self.tasks[t].cells[i].content = None;
        proof {
            let post = *self;
            assert forall|sl: RawVc| pre.slot_exists(sl) implies post.slot_version(sl)
                == pre.slot_version(sl) by {
                let w = sl.spec_task_id() as int;
                if w != t as int {
                    assert(post.tasks@[w] == pre.tasks@[w]);
                } else {
                    match sl {
                        RawVc::TaskOutput(_) => {},
                        RawVc::TaskCell(_, jj) => {
                            assert(post.tasks@[w].cells@[jj as int].version
                                == pre.tasks@[w].cells@[jj as int].version);
                        },
                    }
                }
            }
            assert forall|u: int| 0 <= u < pre.n_tasks() implies post.task_clean(u)
                == pre.task_clean(u) by {
                assert(pre.task_wf(u));
                assert forall|j: int|
                    0 <= j < pre.tasks@[u].edges@.len() implies #[trigger] pre.slot_exists(
                    pre.tasks@[u].edges@[j].0,
                ) by {
                    assert(pre.task_wf(u));
                }
                lemma_same_versions_keeps_clean(pre, post, u);
            }
            if pre.tasks@[t as int].state is Done {
                assert(pre.task_wf(t as int));
                assert(pre.task_clean(t as int));
                assert(post.task_clean(t as int));
            }
            lemma_local_update_wf(pre, post, t as int);
            assert(self.wf());
        }
    }

    /// Run one task body to completion: mark it Running, interpret its
    /// program (reads go through the handle protocol and record edges,
    /// publishes go to its own cells), then publish its output or memoize
    /// its failure, clear cells it stopped publishing, and settle to Done —
    /// or back to Scheduled if its reads went stale while it ran.
    ///
    /// A task that is already Running is never executed again: this is the
    /// at-most-one-execution-in-flight guard.
    #[verifier::rlimit(100)]
    pub fn execute_task(&mut self, t: TaskId, fuel: u64)
        requires
            old(self).wf(),
            old(self).valid_task(t),
            !(old(self).tasks@[t as int].state is Running),
            !(old(self).tasks@[t as int].state is Done),
        ensures
            final(self).wf(),
            same_keys(*old(self), *final(self)),
            versions_monotone(*old(self), *final(self)),
            executions_monotone(*old(self), *final(self)),
            running_preserved(*old(self), *final(self)),
            running_untouched(*old(self), *final(self)),
            no_new_running(*old(self), *final(self)),
            final(self).current_task == old(self).current_task,
            final(self).n_tasks() == old(self).n_tasks(),
            final(self).tasks@[t as int].state is Done || final(self).tasks@[t as int].state
                is Scheduled,
            running_edges_untouched(*old(self), *final(self)),
            final(self).tasks@[t as int].executions >= old(self).tasks@[t as int].executions,
            old(self).tasks@[t as int].executions < 0xffff_ffff_ffff_ffffu64
                ==> final(self).tasks@[t as int].executions == old(
                self,
            ).tasks@[t as int].executions + 1,
            // a read-free body's control flow is pinned: a Fail step
            // memoizes its cause, and a failure-free run installs the
            // output its last output step names
            ({
                let body = old(self).registry.functions@[old(
                    self,
                ).tasks@[t as int].function as int].0.body@;
                (body_no_reads(body) && body_targets_ok(body, old(self).n_tasks())) ==> (
                final(self).tasks@[t as int].state is Done && match body_control(t, body).1 {
                    Some(m) => final(self).tasks@[t as int].error matches Some(e) && e@ == m,
                    None => match body_control(t, body).0 {
                        Some(h) => final(self).tasks@[t as int].error is None
                            && final(self).tasks@[t as int].output.value == Some(h),
                        None => final(self).tasks@[t as int].error is Some,
                    },
                })
            }),
        decreases fuel,
    {
        let ghost enter = *self;
        let fid: usize = self.tasks[t].function;
        let fp: u64 = self.tasks[t].fingerprint;
        self.tasks[t].state = TaskState::Running;
        self.tasks[t].edges = Vec::new();
        let e0: u64 = self.tasks[t].executions;
        self.tasks[t].executions = if e0 < 0xffff_ffff_ffff_ffffu64 {
            e0 + 1
        } else {
            e0
        };
        let saved: Option<TaskId> = self.current_task;
        self.current_task = Some(t);
        proof {
            lemma_local_update_wf(enter, *self, t as int);
            assert(self.wf());
        }
        let ghost start = *self;
        proof {
            assert(enter.task_wf(t as int));
            assert((fid as int) < self.registry.functions@.len());
        }
        let ghost body = start.registry.functions@[fid as int].0.body@;
        let ghost straight = body_no_reads(body) && body_targets_ok(body, start.n_tasks());
        let n_steps: usize = self.registry.functions[fid].0.body.len();
        let mut acc: u64 = fp;
        let mut out: Option<RawVc> = None;
        let mut failure: Option<String> = None;
        let mut published: Vec<usize> = Vec::new();
        let mut pc: usize = 0;
        while pc < n_steps
            invariant
                self.wf(),
                (t as int) < start.n_tasks(),
                start.n_tasks() == self.n_tasks(),
                (fid as int) < self.registry.functions@.len(),
                n_steps == self.registry.functions@[fid as int].0.body@.len(),
                self.tasks@[t as int].state is Running,
                self.current_task == Some(t),
                self.registry == start.registry,
                enter.n_tasks() == start.n_tasks(),
                (t as int) < enter.n_tasks(),
                !(enter.tasks@[t as int].state is Running),
                forall|w: int|
                    0 <= w < enter.n_tasks() && w != t as int
                        ==> (#[trigger] start.tasks@[w]) == enter.tasks@[w],
                running_edges_untouched(enter, *self),
                same_keys(start, *self),
                versions_monotone(start, *self),
                executions_monotone(start, *self),
                running_preserved(start, *self),
                no_new_running(start, *self),
                running_untouched(start, *self),
                pc <= n_steps,
                out matches Some(h) ==> self.valid_handle(h),
                body == start.registry.functions@[fid as int].0.body@,
                straight == (body_no_reads(body) && body_targets_ok(body, start.n_tasks())),
                straight ==> self.tasks@[t as int].edges@.len() == 0,
                n_steps == body.len(),
                straight ==> ({
                    let ctl = body_control(t, body.subrange(0, pc as int));
                    &&& (match failure {
                        Option::Some(m) => ctl.1 matches Some(sm) && m@ == sm,
                        Option::None => ctl.1 is None,
                    })
                    &&& (failure is None ==> out == ctl.0)
                }),
            decreases n_steps - pc,
        {
            let ghost before = *self;
            let step = clone_step(&self.registry.functions[fid].0.body[pc]);
            match step {
                TaskStep::ReadOutput(u) => {
                    if failure.is_none() {
                        if u >= self.tasks.len() {
                            failure = Some(String::from_str("read of an unknown task"));
                        } else if fuel == 0 {
                            failure = Some(String::from_str("ran out of scheduling budget"));
                        } else {
                            match self.read_internal(RawVc::TaskOutput(u), false, true, fuel - 1) {
                                Result::Ok(c) => {
                                    acc = payload_to_u64(&c.1);
                                },
                                Result::Err(e) => {
                                    failure = Some(read_error_message(&e));
                                },
                            }
                        }
                    }
                },
                TaskStep::ReadCell(u, i) => {
                    if failure.is_none() {
                        if u >= self.tasks.len() {
                            failure = Some(String::from_str("read of an unknown task"));
                        } else if fuel == 0 {
                            failure = Some(String::from_str("ran out of scheduling budget"));
                        } else {
                            match self.read_internal(RawVc::TaskCell(u, i), false, true, fuel - 1) {
                                Result::Ok(c) => {
                                    acc = payload_to_u64(&c.1);
                                },
                                Result::Err(e) => {
                                    failure = Some(read_error_message(&e));
                                },
                            }
                        }
                    }
                },
                TaskStep::AddAcc(k) => {
                    if failure.is_none() {
                        acc = acc.wrapping_add(k);
                    }
                },
                TaskStep::MulAcc(k) => {
                    if failure.is_none() {
                        acc = acc.wrapping_mul(k);
                    }
                },
                TaskStep::PublishAcc(i, tyid) => {
                    if failure.is_none() {
                        if i < usize::MAX {
                            let bytes = vstd::bytes::u64_to_le_bytes(acc);
                            self.publish_cell(t, i, Some(tyid), bytes);
                            published.push(i);
                        } else {
                            failure = Some(String::from_str("cell index out of range"));
                        }
                    }
                },
                TaskStep::PublishBytes(i, tyo, bytes) => {
                    if failure.is_none() {
                        if i < usize::MAX {
                            self.publish_cell(t, i, tyo, bytes);
                            published.push(i);
                        } else {
                            failure = Some(String::from_str("cell index out of range"));
                        }
                    }
                },
                TaskStep::OutputCell(i) => {
                    if failure.is_none() {
                        out = Some(RawVc::TaskCell(t, i));
                    }
                },
                TaskStep::OutputTask(u) => {
                    if failure.is_none() {
                        if u < self.tasks.len() {
                            out = Some(RawVc::TaskOutput(u));
                        } else {
                            failure = Some(String::from_str("output names an unknown task"));
                        }
                    }
                },
                TaskStep::Fail(msg) => {
                    if failure.is_none() {
                        failure = Some(msg);
                    }
                },
            }
            proof {
                lemma_frames_trans(start, before, *self);
                if straight {
                    assert(body.subrange(0, pc as int + 1).drop_last() =~= body.subrange(
                        0,
                        pc as int,
                    ));
                    assert(body.subrange(0, pc as int + 1).last() == body[pc as int]);
                    assert(step_equiv(body[pc as int], step));
                }
            }
            pc = pc + 1;
        }
        proof {
            if straight {
                assert(body.subrange(0, n_steps as int) =~= body);
            }
        }
        // a re-execution that stopped publishing an index invalidates and
        // clears that slot
        if failure.is_none() {
            let mut j: usize = 0;
            while j < self.tasks[t].cells.len()
                invariant
                    self.wf(),
                    (t as int) < start.n_tasks(),
                    start.n_tasks() == self.n_tasks(),
                    self.tasks@[t as int].state is Running,
                    self.current_task == Some(t),
                    self.registry == start.registry,
                    enter.n_tasks() == start.n_tasks(),
                    (t as int) < enter.n_tasks(),
                    !(enter.tasks@[t as int].state is Running),
                    forall|w: int|
                        0 <= w < enter.n_tasks() && w != t as int
                            ==> (#[trigger] start.tasks@[w]) == enter.tasks@[w],
                    running_edges_untouched(enter, *self),
                    same_keys(start, *self),
                    versions_monotone(start, *self),
                    executions_monotone(start, *self),
                    running_preserved(start, *self),
                    no_new_running(start, *self),
                    running_untouched(start, *self),
                    out matches Some(h) ==> self.valid_handle(h),
                    body == start.registry.functions@[fid as int].0.body@,
                    straight == (body_no_reads(body) && body_targets_ok(body, start.n_tasks())),
                    straight ==> self.tasks@[t as int].edges@.len() == 0,
                    straight ==> ({
                        let ctl = body_control(t, body);
                        &&& (match failure {
                            Option::Some(m) => ctl.1 matches Some(sm) && m@ == sm,
                            Option::None => ctl.1 is None,
                        })
                        &&& (failure is None ==> out == ctl.0)
                    }),
                decreases self.tasks@[t as int].cells@.len() - j,
            {
                let ghost before = *self;
                let has = match &self.tasks[t].cells[j].content {
                    Some(_) => true,
                    None => false,
                };
                if has && !ids_contain(&published, j) {
                    self.invalidate(t, j);
                    let ghost afterinv = *self;
                    proof {
                        lemma_frames_trans(start, before, *self);
                    }
                    self.clear_cell_content(t, j);
                    proof {
                        lemma_frames_trans(start, afterinv, *self);
                    }
                }
                j = j + 1;
            }
        }
        // install output or memoize the failure
        let ghost beforefin = *self;
        let ghost gfail = failure;
        let ghost gout = out;
        proof {
            if straight {
                let ctl = body_control(t, body);
                assert(match gfail {
                    Option::Some(m) => ctl.1 matches Some(sm) && m@ == sm,
                    Option::None => ctl.1 is None,
                });
                assert(gfail is None ==> gout == ctl.0);
            }
        }
        match failure {
            Some(msg) => {
                self.tasks[t].error = Some(msg);
                proof {
                    lemma_local_update_wf(beforefin, *self, t as int);
                    assert(self.wf());
                    lemma_frames_trans(start, beforefin, *self);
                    assert(gfail matches Option::Some(gm) && (self.tasks@[t as int].error
                        matches Some(e) && e == gm));
                }
            },
            None => {
                match out {
                    Some(h) => {
                        self.tasks[t].error = None;
                        proof {
                            lemma_local_update_wf(beforefin, *self, t as int);
                            assert(self.wf());
                            lemma_frames_trans(start, beforefin, *self);
                        }
                        let ghost beforepub = *self;
                        self.publish_output(t, h);
                        proof {
                            lemma_frames_trans(start, beforepub, *self);
                            assert(self.tasks@[t as int].error is None);
                            assert(self.tasks@[t as int].output.value == Some(h));
                            assert(gout == Some(h));
                        }
                    },
                    None => {
                        self.tasks[t].error = Some(
                            String::from_str("task finished without publishing an output"),
                        );
                        proof {
                            lemma_local_update_wf(beforefin, *self, t as int);
                            assert(self.wf());
                            lemma_frames_trans(start, beforefin, *self);
                            assert(self.tasks@[t as int].error is Some);
                        }
                    },
                }
            },
        }
        // switch the tracker back and settle the state
        let ghost beforestate = *self;
        self.current_task = saved;
        proof {
            lemma_local_update_wf(beforestate, *self, t as int);
            assert(self.wf()) by {
                if enter.current_task is Some {
                    let c = enter.current_task->Some_0 as int;
                    assert(enter.tasks@[c].state is Running);
                    assert(start.tasks@[c].state is Running);
                    assert(beforestate.tasks@[c].state is Running);
                }
            }
        }
        proof {
            assert(self.edges_valid()) by {
                assert forall|u: int, j: int|
                    0 <= u < self.n_tasks() && 0 <= j < self.tasks@[u].edges@.len() implies self
                    .valid_handle((#[trigger] self.tasks@[u].edges@[j]).0) by {
                    assert(self.task_wf(u));
                    assert(self.slot_exists(self.tasks@[u].edges@[j].0));
                }
            }
        }
        let clean = self.task_clean_exec(t);
        let ghost beforedone = *self;
        if clean {
            self.tasks[t].state = TaskState::Done;
        } else {
            self.tasks[t].state = TaskState::Scheduled;
        }
        proof {
            let post = *self;
            assert(beforedone.edges_valid()) by {
                assert forall|u: int, j: int|
                    0 <= u < beforedone.n_tasks() && 0 <= j
                        < beforedone.tasks@[u].edges@.len() implies beforedone.valid_handle(
                    (#[trigger] beforedone.tasks@[u].edges@[j]).0) by {
                    assert(beforedone.task_wf(u));
                    assert(beforedone.slot_exists(beforedone.tasks@[u].edges@[j].0));
                }
            }
            assert forall|w: int| 0 <= w < beforedone.n_tasks() implies post.task_clean(w)
                == beforedone.task_clean(w) by {
                lemma_state_change_keeps_clean(beforedone, post, w);
            }
            lemma_local_update_wf(beforedone, post, t as int);
            assert(self.wf()) by {
                if self.current_task is Some {
                    let c = self.current_task->Some_0 as int;
                    assert(beforedone.tasks@[c].state is Running);
                    assert(c != t as int);
                }
            }
            assert(same_keys(beforedone, *self));
            assert(versions_monotone(beforedone, *self)) by {
                assert forall|w: int| 0 <= w < beforedone.n_tasks() implies {
                    &&& (#[trigger] self.tasks@[w]).output.version
                        >= beforedone.tasks@[w].output.version
                    &&& self.tasks@[w].cells@.len() >= beforedone.tasks@[w].cells@.len()
                    &&& forall|i: int|
                        0 <= i < beforedone.tasks@[w].cells@.len()
                            ==> (#[trigger] self.tasks@[w].cells@[i]).version
                            >= beforedone.tasks@[w].cells@[i].version
                } by {
                    if w != t as int {
                        assert(self.tasks@[w] == beforedone.tasks@[w]);
                    }
                }
            }
            assert(executions_monotone(beforedone, *self));
            lemma_values_trans(start, beforedone, *self);
            lemma_values_trans(enter, start, *self);
            assert forall|w: int|
                0 <= w < enter.n_tasks() && enter.tasks@[w].state is Running implies (
            #[trigger] self.tasks@[w]).state is Running by {
                assert(w != t as int);
                assert(start.tasks@[w].state is Running);
                assert(beforedone.tasks@[w].state is Running);
                assert(self.tasks@[w] == beforedone.tasks@[w]);
            }
            assert forall|w: int|
                0 <= w < enter.n_tasks() && (#[trigger] self.tasks@[w]).state is Running implies
                enter.tasks@[w].state is Running by {
                assert(w != t as int);
                assert(self.tasks@[w] == beforedone.tasks@[w]);
                assert(beforedone.tasks@[w].state is Running);
                assert(start.tasks@[w].state is Running);
            }
            assert(self.tasks@[t as int].executions == start.tasks@[t as int].executions);
            if straight {
                assert(beforedone.tasks@[t as int].edges@.len() == 0);
                assert(beforedone.task_clean(t as int));
                assert(self.tasks@[t as int].state is Done);
                let ctl = body_control(t, body);
                match gfail {
                    Option::Some(_) => {
                        assert(self.tasks@[t as int].error
                            == beforedone.tasks@[t as int].error);
                    },
                    Option::None => {
                        match gout {
                            Option::Some(_) => {
                                assert(self.tasks@[t as int].error
                                    == beforedone.tasks@[t as int].error);
                                assert(self.tasks@[t as int].output.value
                                    == beforedone.tasks@[t as int].output.value);
                            },
                            Option::None => {
                                assert(self.tasks@[t as int].error
                                    == beforedone.tasks@[t as int].error);
                            },
                        }
                    },
                }
            }
        }
    }
}



impl TurboTasks {
    /// Execute ready tasks until none is left or the budget runs out.
    /// Returns whether the engine settled.
    pub fn drain(&mut self, fuel: u64) -> (completed: bool)
        requires
            old(self).wf(),
        ensures
            final(self).wf(),
            same_keys(*old(self), *final(self)),
            versions_monotone(*old(self), *final(self)),
            executions_monotone(*old(self), *final(self)),
            running_preserved(*old(self), *final(self)),
            running_untouched(*old(self), *final(self)),
            no_new_running(*old(self), *final(self)),
            final(self).current_task == old(self).current_task,
            final(self).n_tasks() == old(self).n_tasks(),
            running_edges_untouched(*old(self), *final(self)),
            completed ==> final(self).no_ready(),
            // the budget only runs out while something is still ready
            !completed ==> !final(self).no_ready(),
        decreases fuel,
    {
        let ghost pre = *self;
        let mut remaining: u64 = fuel;
        loop
            invariant
                pre == *old(self),
                self.wf(),
                remaining <= fuel,
                self.n_tasks() == pre.n_tasks(),
                same_keys(pre, *self),
                versions_monotone(pre, *self),
                executions_monotone(pre, *self),
                running_preserved(pre, *self),
                no_new_running(pre, *self),
                running_untouched(pre, *self),
                running_edges_untouched(pre, *self),
                self.current_task == pre.current_task,
            decreases remaining,
        {
            match self.find_ready() {
                Option::None => {
                    return true;
                },
                Option::Some(t) => {
                    if remaining == 0 {
                        proof {
                            assert(self.task_ready(t as int));
                        }
                        return false;
                    }
                    let ghost before = *self;
                    self.execute_task(t, remaining - 1);
                    proof {
                        lemma_frames_trans(pre, before, *self);
                    }
                    remaining = remaining - 1;
                },
            }
        }
    }

    /// The read driver behind the handle protocol: follow output hops to a
    /// cell, executing not-yet-done tasks on the way (or, for a
    /// strongly-consistent read, settling the whole engine before each
    /// hop), record a dependency edge per hop when tracking, and return the
    /// terminal cell's payload.
    ///
    /// A strongly-consistent read that succeeds leaves the engine settled:
    /// the value it returns was computed after every pending invalidation
    /// was worked off.
    pub fn read_internal(
        &mut self,
        vc: RawVc,
        strongly_consistent: bool,
        tracked_read: bool,
        fuel: u64,
    ) -> (r: Result<SharedReference, ReadError>)
        requires
            old(self).wf(),
            old(self).valid_handle(vc),
        ensures
            final(self).wf(),
            same_keys(*old(self), *final(self)),
            versions_monotone(*old(self), *final(self)),
            executions_monotone(*old(self), *final(self)),
            running_preserved(*old(self), *final(self)),
            running_untouched(*old(self), *final(self)),
            no_new_running(*old(self), *final(self)),
            final(self).current_task == old(self).current_task,
            final(self).n_tasks() == old(self).n_tasks(),
            // an untracked read records nothing: every running task's
            // read-set, the tracked current task's included, is unchanged
            !tracked_read ==> running_edges_untouched(*old(self), *final(self)),
            // a tracked read appends only to the tracked current task
            forall|w: int|
                0 <= w < old(self).n_tasks() && old(self).tasks@[w].state is Running && old(
                    self,
                ).current_task != Some(w as TaskId)
                    ==> (#[trigger] final(self).tasks@[w]).edges == old(self).tasks@[w].edges,
            // a successful strong read leaves the engine settled and returns
            // exactly the terminal cell's content in that settled state
            strongly_consistent && r is Ok ==> final(self).no_ready(),
            strongly_consistent ==> (r matches Ok(p) ==> exists|d: nat|
                (#[trigger] final(self).chase(vc, d)) matches Some(c) && (final(self).cell_content(
                    c->TaskCell_0 as int,
                    c->TaskCell_1 as int,
                ) matches Some(q) && q.0 == p.0 && q.1@ == p.1@)),
            // an untracked (no tracker) plain read of a Done, error-free
            // chain returns the terminal cell's content and touches nothing
            (!strongly_consistent && old(self).current_task is None && fuel > 0 && (old(
                self,
            ).chase(vc, (fuel - 1) as nat) matches Some(c) && old(self).cell_content(
                c->TaskCell_0 as int,
                c->TaskCell_1 as int,
            ) is Some)) ==> (r matches Ok(p) && p.0 == old(self).cell_content(
                old(self).chase(vc, (fuel - 1) as nat)->Some_0->TaskCell_0 as int,
                old(self).chase(vc, (fuel - 1) as nat)->Some_0->TaskCell_1 as int,
            )->Some_0.0 && p.1@ == old(self).cell_content(
                old(self).chase(vc, (fuel - 1) as nat)->Some_0->TaskCell_0 as int,
                old(self).chase(vc, (fuel - 1) as nat)->Some_0->TaskCell_1 as int,
            )->Some_0.1@) && *final(self) == *old(self),
            (!strongly_consistent && old(self).current_task is None && fuel > 0 && (old(
                self,
            ).chase(vc, (fuel - 1) as nat) matches Some(c) && old(self).cell_content(
                c->TaskCell_0 as int,
                c->TaskCell_1 as int,
            ) is None && (old(self).tasks@[c->TaskCell_0 as int].state is Done || old(
                self,
            ).tasks@[c->TaskCell_0 as int].state is Dormant))) ==> r == Err::<
                SharedReference,
                ReadError,
            >(ReadError::NoContent) && *final(self) == *old(self),
            (!strongly_consistent && fuel > 0 && (vc matches RawVc::TaskCell(ct, ci) && old(
                self,
            ).cell_content(ct as int, ci as int) is Some)) ==> (r matches Ok(p) && p.0 == old(
                self,
            ).cell_content(
                vc->TaskCell_0 as int,
                vc->TaskCell_1 as int,
            )->Some_0.0 && p.1@ == old(self).cell_content(
                vc->TaskCell_0 as int,
                vc->TaskCell_1 as int,
            )->Some_0.1@),
            // a plain read of a first hop holding a memoized failure
            // surfaces exactly that cause
            (!strongly_consistent && fuel > 0 && (vc matches RawVc::TaskOutput(fu) && (old(
                self,
            ).tasks@[fu as int].state is Done && old(self).tasks@[fu as int].error matches Some(
                m,
            )))) ==> r == Err::<SharedReference, ReadError>(
                ReadError::TaskError(old(self).tasks@[vc->TaskOutput_0 as int].error->Some_0),
            ),
        decreases fuel,
    {
        let ghost pre = *self;
        if strongly_consistent {
            let mut remaining: u64 = fuel;
            loop
                invariant
                    pre == *old(self),
                    strongly_consistent,
                    self.wf(),
                    self.valid_handle(vc),
                    remaining <= fuel,
                    self.n_tasks() == pre.n_tasks(),
                    same_keys(pre, *self),
                    versions_monotone(pre, *self),
                    executions_monotone(pre, *self),
                    running_preserved(pre, *self),
                    no_new_running(pre, *self),
                    running_untouched(pre, *self),
                    self.current_task == pre.current_task,
                    !tracked_read ==> running_edges_untouched(pre, *self),
                    forall|w: int|
                        0 <= w < pre.n_tasks() && pre.tasks@[w].state is Running
                            && pre.current_task != Some(w as TaskId)
                            ==> (#[trigger] self.tasks@[w]).edges == pre.tasks@[w].edges,
                decreases remaining,
            {
                if remaining == 0 {
                    return Result::Err(ReadError::FuelExhausted);
                }
                let ghost before = *self;
                let settled = self.drain(remaining - 1);
                proof {
                    lemma_frames_trans(pre, before, *self);
                }
                if !settled {
                    return Result::Err(ReadError::FuelExhausted);
                }
                let ghost s_settled = *self;
                let ghost before2 = *self;
                match self.walk_chain(vc, tracked_read, remaining) {
                    WalkOutcome::Reached(p) => {
                        proof {
                            lemma_frames_trans(pre, before2, *self);
                            assert forall|w: int| 0 <= w < self.n_tasks() implies !self.task_ready(
                                w,
                            ) by {
                                assert(self.tasks@[w].state == s_settled.tasks@[w].state);
                                assert(!s_settled.task_ready(w));
                            }
                            let d = choose|d: nat|
                                d <= remaining && ((#[trigger] s_settled.chase(vc, d))
                                    matches Some(c) && (s_settled.cell_content(
                                    c->TaskCell_0 as int,
                                    c->TaskCell_1 as int,
                                ) matches Some(q) && q.0 == p.0 && q.1@ == p.1@));
                            assert(s_settled.wf());
                            assert forall|w: int|
                                0 <= w < s_settled.n_tasks() implies ((
                            #[trigger] s_settled.tasks@[w]).output.value matches Some(h)
                                ==> s_settled.valid_handle(h)) by {
                                assert(s_settled.task_wf(w));
                            }
                            lemma_chase_same(s_settled, *self, vc, d);
                            lemma_chase_valid(s_settled, vc, d);
                            assert(self.chase(vc, d) == s_settled.chase(vc, d));
                            let c = s_settled.chase(vc, d)->Some_0;
                            assert(s_settled.valid_handle(c));
                            let ti = c->TaskCell_0 as int;
                            let ii = c->TaskCell_1 as int;
                            assert(before2 == s_settled);
                            assert(0 <= ti < before2.n_tasks());
                            assert((self.tasks@[ti]).output.value
                                == before2.tasks@[ti].output.value);
                            assert(self.tasks@[ti].cells@.len()
                                == s_settled.tasks@[ti].cells@.len());
                            if ii < s_settled.tasks@[ti].cells@.len() {
                                assert(self.tasks@[ti].cells@[ii].content
                                    == s_settled.tasks@[ti].cells@[ii].content);
                            }
                            assert(self.cell_content(ti, ii) == s_settled.cell_content(ti, ii));
                        }
                        return Result::Ok(p);
                    },
                    WalkOutcome::Failed(e) => {
                        proof {
                            lemma_frames_trans(pre, before2, *self);
                        }
                        return Result::Err(e);
                    },
                    WalkOutcome::Blocked(_) => {
                        proof {
                            lemma_frames_trans(pre, before2, *self);
                        }
                    },
                }
                remaining = remaining - 1;
            }
        }
        let ghost pure_some = pre.current_task is None && fuel > 0 && (pre.chase(
            vc,
            (fuel - 1) as nat,
        ) matches Some(c) && pre.cell_content(c->TaskCell_0 as int, c->TaskCell_1 as int) is Some);
        let ghost pure_none = pre.current_task is None && fuel > 0 && (pre.chase(
            vc,
            (fuel - 1) as nat,
        ) matches Some(c) && pre.cell_content(c->TaskCell_0 as int, c->TaskCell_1 as int) is None
            && (pre.tasks@[c->TaskCell_0 as int].state is Done
            || pre.tasks@[c->TaskCell_0 as int].state is Dormant));
        let ghost direct_cell = !strongly_consistent && fuel > 0 && (vc matches RawVc::TaskCell(
            ct,
            ci,
        ) && pre.cell_content(ct as int, ci as int) is Some);
        let ghost firsterr = !strongly_consistent && fuel > 0 && (vc matches RawVc::TaskOutput(
            fu,
        ) && (pre.tasks@[fu as int].state is Done && pre.tasks@[fu as int].error is Some));
        let mut current: RawVc = vc;
        let mut remaining: u64 = fuel;
        loop
            invariant
                pre == *old(self),
                !strongly_consistent,
                direct_cell == (!strongly_consistent && fuel > 0 && (vc matches RawVc::TaskCell(
                    ct,
                    ci,
                ) && pre.cell_content(ct as int, ci as int) is Some)),
                direct_cell ==> (current == vc && remaining == fuel && self.cell_content(
                    vc->TaskCell_0 as int,
                    vc->TaskCell_1 as int,
                ) == pre.cell_content(vc->TaskCell_0 as int, vc->TaskCell_1 as int)),
                firsterr == (!strongly_consistent && fuel > 0 && (vc matches RawVc::TaskOutput(
                    fu,
                ) && (pre.tasks@[fu as int].state is Done && pre.tasks@[fu as int].error
                    is Some))),
                firsterr ==> (current == vc && remaining == fuel
                    && self.tasks@[vc->TaskOutput_0 as int] == pre.tasks@[vc->TaskOutput_0 as int]),
                !tracked_read ==> running_edges_untouched(pre, *self),
                forall|w: int|
                    0 <= w < pre.n_tasks() && pre.tasks@[w].state is Running
                        && pre.current_task != Some(w as TaskId)
                        ==> (#[trigger] self.tasks@[w]).edges == pre.tasks@[w].edges,
                pure_some == (pre.current_task is None && fuel > 0 && (pre.chase(
                    vc,
                    (fuel - 1) as nat,
                ) matches Some(c) && pre.cell_content(
                    c->TaskCell_0 as int,
                    c->TaskCell_1 as int,
                ) is Some)),
                pure_none == (pre.current_task is None && fuel > 0 && (pre.chase(
                    vc,
                    (fuel - 1) as nat,
                ) matches Some(c) && pre.cell_content(
                    c->TaskCell_0 as int,
                    c->TaskCell_1 as int,
                ) is None && (pre.tasks@[c->TaskCell_0 as int].state is Done
                    || pre.tasks@[c->TaskCell_0 as int].state is Dormant))),
                self.wf(),
                self.valid_handle(current),
                remaining <= fuel,
                self.n_tasks() == pre.n_tasks(),
                same_keys(pre, *self),
                versions_monotone(pre, *self),
                executions_monotone(pre, *self),
                running_preserved(pre, *self),
                no_new_running(pre, *self),
                running_untouched(pre, *self),
                self.current_task == pre.current_task,
                (pure_some || pure_none) ==> (*self == pre && remaining > 0 && pre.chase(
                    current,
                    (remaining - 1) as nat,
                ) == pre.chase(vc, (fuel - 1) as nat)),
            decreases remaining,
        {
            if remaining == 0 {
                return Result::Err(ReadError::FuelExhausted);
            }
            proof {
                if pure_some || pure_none {
                    assert(*self == pre);
                    assert(pre.chase(current, (remaining - 1) as nat) is Some);
                    if current is TaskOutput {
                        let u0 = current->TaskOutput_0;
                        assert(pre.hop(current) is Some);
                        assert(pre.tasks@[u0 as int].state is Done);
                        assert(pre.tasks@[u0 as int].error is None);
                        assert((remaining - 1) as nat > 0);
                    }
                }
            }
            match current {
                RawVc::TaskOutput(u) => {
                    let ghost before = *self;
                    match self.try_read_task_output(u, false) {
                        TryRead::Ready(h) => {
                            proof {
                                lemma_frames_trans(pre, before, *self);
                                assert(self.task_wf(u as int));
                                if pure_some || pure_none {
                                    assert(before == pre);
                                    assert(*self == pre);
                                    assert(pre.hop(current) == Some(h));
                                    assert(pre.chase(current, (remaining - 1) as nat) == pre.chase(
                                        h,
                                        (remaining - 2) as nat,
                                    ));
                                }
                            }
                            if tracked_read {
                                match self.current_task {
                                    Option::Some(reader) => {
                                        let v = self.slot_version_exec(RawVc::TaskOutput(u));
                                        let ghost before2 = *self;
                                        self.record_read(reader, RawVc::TaskOutput(u), v);
                                        proof {
                                            lemma_frames_trans(pre, before2, *self);
                                        }
                                    },
                                    Option::None => {},
                                }
                            }
                            current = h;
                        },
                        TryRead::Pending => {
                            proof {
                                lemma_frames_trans(pre, before, *self);
                                if pure_some || pure_none {
                                    assert(false);
                                }
                            }
                            let is_running = match self.tasks[u].state {
                                TaskState::Running => true,
                                _ => false,
                            };
                            if is_running {
                                return Result::Err(ReadError::CycleDetected);
                            }
                            let can_run = match self.tasks[u].state {
                                TaskState::Scheduled | TaskState::Dirty | TaskState::Dormant
                                => true,
                                _ => false,
                            };
                            if can_run {
                                let ghost before2 = *self;
                                self.execute_task(u, remaining - 1);
                                proof {
                                    lemma_frames_trans(pre, before2, *self);
                                }
                            }
                        },
                        TryRead::Failed(e) => {
                            proof {
                                lemma_frames_trans(pre, before, *self);
                                if pure_some || pure_none {
                                    assert(false);
                                }
                            }
                            return Result::Err(e);
                        },
                    }
                },
                RawVc::TaskCell(u, i) => {
                    proof {
                        if pure_some || pure_none {
                            assert(pre.chase(current, (remaining - 1) as nat) == Some(current));
                            assert(current == pre.chase(vc, (fuel - 1) as nat)->Some_0);
                        }
                    }
                    match self.try_read_task_cell(u, i) {
                        TryRead::Ready(c) => {
                            proof {
                                if pure_none {
                                    assert(false);
                                }
                            }
                            if tracked_read {
                                match self.current_task {
                                    Option::Some(reader) => {
                                        let v = self.slot_version_exec(RawVc::TaskCell(u, i));
                                        let ghost before2 = *self;
                                        self.record_read(reader, RawVc::TaskCell(u, i), v);
                                        proof {
                                            lemma_frames_trans(pre, before2, *self);
                                        }
                                    },
                                    Option::None => {},
                                }
                            }
                            return Result::Ok(c);
                        },
                        TryRead::Pending => {
                            proof {
                                if pure_some || pure_none || direct_cell {
                                    assert(false);
                                }
                            }
                            let is_running = match self.tasks[u].state {
                                TaskState::Running => true,
                                _ => false,
                            };
                            if is_running {
                                return Result::Err(ReadError::CycleDetected);
                            }
                            let can_run = match self.tasks[u].state {
                                TaskState::Scheduled | TaskState::Dirty => true,
                                _ => false,
                            };
                            if can_run {
                                let ghost before2 = *self;
                                self.execute_task(u, remaining - 1);
                                proof {
                                    lemma_frames_trans(pre, before2, *self);
                                }
                            }
                        },
                        TryRead::Failed(e) => {
                            proof {
                                if pure_some || direct_cell {
                                    assert(false);
                                }
                            }
                            return Result::Err(e);
                        },
                    }
                },
            }
            remaining = remaining - 1;
        }
    }

    /// Dispatch one ready task if there is one; the scheduler's turn.
    pub fn turn(&mut self, fuel: u64) -> (r: bool)
        requires
            old(self).wf(),
        ensures
            final(self).wf(),
            same_keys(*old(self), *final(self)),
            versions_monotone(*old(self), *final(self)),
            executions_monotone(*old(self), *final(self)),
            running_preserved(*old(self), *final(self)),
            running_untouched(*old(self), *final(self)),
            no_new_running(*old(self), *final(self)),
            final(self).current_task == old(self).current_task,
            final(self).n_tasks() == old(self).n_tasks(),
            !r ==> final(self).no_ready() && *final(self) == *old(self),
            r ==> exists|t: int|
                0 <= t < old(self).n_tasks() && (#[trigger] old(self).task_ready(t))
                    && (final(self).tasks@[t].state is Done || final(self).tasks@[t].state
                    is Scheduled) && (old(self).tasks@[t].executions < 0xffff_ffff_ffff_ffffu64
                    ==> final(self).tasks@[t].executions > old(self).tasks@[t].executions),
    {
        match self.find_ready() {
            Option::Some(t) => {
                self.execute_task(t, fuel);
                proof {
                    assert(old(self).task_ready(t as int));
                }
                true
            },
            Option::None => false,
        }
    }

    /// Create (or find) the task for `(f, fp)` and drive a read of its
    /// output to completion: the engine-level entry point.
    pub fn run_once(&mut self, f: FunctionId, fp: u64, fuel: u64) -> (r: Result<
        SharedReference,
        ReadError,
    >)
        requires
            old(self).wf(),
            (f as int) < old(self).registry.functions@.len(),
        ensures
            final(self).wf(),
            same_keys(*old(self), *final(self)),
            final(self).current_task == old(self).current_task,
            // the task for the key exists afterwards, newly created only if
            // the key was new
            exists|j: int|
                0 <= j < final(self).n_tasks() && (#[trigger] final(self).tasks@[j]).key_matches(
                    f,
                    fp,
                ),
            (exists|j: int|
                0 <= j < old(self).n_tasks() && (#[trigger] old(self).tasks@[j]).key_matches(
                    f,
                    fp,
                )) ==> final(self).n_tasks() == old(self).n_tasks(),
            // with no tracker and an already-Done chain, the read is the
            // terminal cell's content and nothing changes
            forall|j: int|
                0 <= j < old(self).n_tasks() && (#[trigger] old(self).tasks@[j]).key_matches(
                    f,
                    fp,
                ) ==> ((old(self).current_task is None && fuel > 0 && old(self).chase_payload(
                    RawVc::TaskOutput(j as usize),
                    (fuel - 1) as nat,
                ) is Some) ==> (r matches Ok(p) && p.0 == old(self).chase_payload(
                    RawVc::TaskOutput(j as usize),
                    (fuel - 1) as nat,
                )->Some_0.0 && p.1@ == old(self).chase_payload(
                    RawVc::TaskOutput(j as usize),
                    (fuel - 1) as nat,
                )->Some_0.1@) && *final(self) == *old(self)),
    {
        let ghost pre = *self;
        let h = self.spawn(f, fp);
        proof {
            assert(self.valid_handle(h));
        }
        let ghost before = *self;
        proof {
            if exists|j: int|
                0 <= j < pre.n_tasks() && (#[trigger] pre.tasks@[j]).key_matches(f, fp) {
                assert(before == pre);
                assert(h == RawVc::TaskOutput(h.spec_task_id()));
            }
        }
        let r = self.read_internal(h, false, false, fuel);
        proof {
            assert(same_keys(pre, before));
            assert(same_keys(before, *self));
            assert(same_keys(pre, *self)) by {
                assert forall|t: int| 0 <= t < pre.n_tasks() implies {
                    &&& (#[trigger] self.tasks@[t]).function == pre.tasks@[t].function
                    &&& self.tasks@[t].fingerprint == pre.tasks@[t].fingerprint
                } by {
                    assert(before.tasks@[t].function == pre.tasks@[t].function);
                }
            }
            assert(before.tasks@[h.spec_task_id() as int].key_matches(f, fp));
            assert(self.tasks@[h.spec_task_id() as int].key_matches(f, fp));
            assert forall|j: int|
                0 <= j < pre.n_tasks() && (#[trigger] pre.tasks@[j]).key_matches(f, fp) implies j
                == h.spec_task_id() as int by {
                assert(pre.keys_unique());
            }
        }
        r
    }
}



/// Dependency completeness: if a Done task holds an edge recording that it
/// read cell `i` of task `t` at some version, and an invalidation advances
/// that cell past the observed version, the reader is marked Dirty.
pub proof fn law_dependency_completeness(
    pre: TurboTasks,
    post: TurboTasks,
    t: TaskId,
    i: usize,
    r: int,
    j: int,
)
    requires
        pre.wf(),
        slot_invalidated(pre, post, t, i),
        0 <= r < pre.n_tasks(),
        (t as int) < pre.n_tasks(),
        (i as int) < pre.tasks@[t as int].cells@.len(),
        pre.tasks@[r].state is Done,
        0 <= j < pre.tasks@[r].edges@.len(),
        pre.tasks@[r].edges@[j].0 == RawVc::TaskCell(t, i),
        pre.tasks@[r].edges@[j].1 < bump(pre.tasks@[t as int].cells@[i as int].version),
    ensures
        post.tasks@[r].state is Dirty,
{
    let e = pre.tasks@[r].edges@[j];
    if r == t as int {
        assert(post.tasks@[r].edges == pre.tasks@[r].edges);
    } else {
        assert(same_but_state(pre.tasks@[r], post.tasks@[r]));
    }
    assert(post.tasks@[r].edges@[j] == e);
    assert(post.slot_version(RawVc::TaskCell(t, i)) == bump(
        pre.tasks@[t as int].cells@[i as int].version,
    ));
    assert(!post.edge_current(e));
    assert(!post.task_clean(r));
    assert(states_marked(pre, post));
}



/// Monotone versions: slot versions never go backwards, so across any two
/// engine operations in sequence the versions observed over time are
/// non-decreasing.
pub proof fn law_versions_monotone_compose(a: TurboTasks, b: TurboTasks, c: TurboTasks)
    requires
        same_keys(a, b),
        same_keys(b, c),
        versions_monotone(a, b),
        versions_monotone(b, c),
    ensures
        versions_monotone(a, c),
{
    assert forall|t: int| 0 <= t < a.n_tasks() implies {
        &&& (#[trigger] c.tasks@[t]).output.version >= a.tasks@[t].output.version
        &&& c.tasks@[t].cells@.len() >= a.tasks@[t].cells@.len()
        &&& forall|i: int|
            0 <= i < a.tasks@[t].cells@.len() ==> (#[trigger] c.tasks@[t].cells@[i]).version
                >= a.tasks@[t].cells@[i].version
    } by {
        assert(b.tasks@[t].output.version >= a.tasks@[t].output.version);
        assert(c.tasks@[t].output.version >= b.tasks@[t].output.version);
        assert forall|i: int|
            0 <= i < a.tasks@[t].cells@.len() implies (#[trigger] c.tasks@[t].cells@[i]).version
            >= a.tasks@[t].cells@[i].version by {
            assert(b.tasks@[t].cells@[i].version >= a.tasks@[t].cells@[i].version);
            assert(c.tasks@[t].cells@[i].version >= b.tasks@[t].cells@[i].version);
        }
    }
}



impl TurboTasks {
    /// One hop of output-chain resolution: a Done, error-free task's output
    /// handle. Anything else blocks the walk.
    pub open spec fn hop(self, vc: RawVc) -> Option<RawVc> {
        match vc {
            RawVc::TaskCell(_, _) => None,
            RawVc::TaskOutput(u) => if self.tasks@[u as int].state is Done
                && self.tasks@[u as int].error is None {
                self.tasks@[u as int].output.value
            } else {
                None
            },
        }
    }

    /// The terminal cell's payload under the chase, if the chain settles at
    /// a filled cell within the depth budget.
    pub open spec fn chase_payload(self, vc: RawVc, depth: nat) -> Option<SharedReference> {
        match self.chase(vc, depth) {
            Some(c) => self.cell_content(c->TaskCell_0 as int, c->TaskCell_1 as int),
            None => None,
        }
    }

    /// Follow output slots from a handle until a cell handle is reached:
    /// the terminal cell of the handle in this state, if the whole chain is
    /// Done and error-free and no longer than the depth budget.
    pub open spec fn chase(self, vc: RawVc, depth: nat) -> Option<RawVc>
        decreases depth,
    {
        match vc {
            RawVc::TaskCell(_, _) => Some(vc),
            RawVc::TaskOutput(u) => if depth == 0 {
                None
            } else {
                match self.hop(vc) {
                    Some(h) => self.chase(h, (depth - 1) as nat),
                    None => None,
                }
            },
        }
    }
}



/// How a pure walk of an output chain ended.
pub enum WalkOutcome {
    /// The terminal cell was reached and read: its payload.
    Reached(SharedReference),
    /// A task on the chain is not Done yet; it was scheduled if it was
    /// dormant or dirty, and the caller must run the engine and retry. The
    /// handle where the walk stopped is carried along.
    Blocked(RawVc),
    /// A task on the chain holds a memoized failure, or the terminal cell
    /// is settled and empty.
    Failed(ReadError),
}

/// A chase that reaches a cell reaches one inside the table, as long as
/// every output value is a valid handle.
proof fn lemma_chase_valid(s: TurboTasks, vc: RawVc, d: nat)
    requires
        forall|w: int|
            0 <= w < s.n_tasks() ==> ((#[trigger] s.tasks@[w]).output.value matches Some(h)
                ==> s.valid_handle(h)),
        s.valid_handle(vc),
    ensures
        s.chase(vc, d) matches Some(c) ==> s.valid_handle(c) && c is TaskCell,
    decreases d,
{
    match vc {
        RawVc::TaskCell(_, _) => {},
        RawVc::TaskOutput(u) => {
            if d > 0 {
                match s.hop(vc) {
                    Some(h) => {
                        lemma_chase_valid(s, h, (d - 1) as nat);
                    },
                    None => {},
                }
            }
        },
    }
}

/// Chasing depends only on states, errors and output values, so a change
/// that keeps those (recording, content writes) keeps every chase. Output
/// handles must stay inside the table, which well-formedness gives.
proof fn lemma_chase_same(a: TurboTasks, b: TurboTasks, vc: RawVc, d: nat)
    requires
        a.n_tasks() == b.n_tasks(),
        forall|w: int|
            0 <= w < a.n_tasks() ==> {
                &&& (#[trigger] b.tasks@[w]).state == a.tasks@[w].state
                &&& b.tasks@[w].error == a.tasks@[w].error
                &&& b.tasks@[w].output.value == a.tasks@[w].output.value
            },
        forall|w: int|
            0 <= w < a.n_tasks() ==> ((#[trigger] a.tasks@[w]).output.value matches Some(h)
                ==> a.valid_handle(h)),
        a.valid_handle(vc),
    ensures
        b.chase(vc, d) == a.chase(vc, d),
    decreases d,
{
    match vc {
        RawVc::TaskCell(_, _) => {},
        RawVc::TaskOutput(u) => {
            assert(b.hop(vc) == a.hop(vc));
            if d > 0 {
                match a.hop(vc) {
                    Some(h) => {
                        assert(a.valid_handle(h));
                        lemma_chase_same(a, b, h, (d - 1) as nat);
                    },
                    None => {},
                }
            }
        },
    }
}

impl TurboTasks {
    /// Follow output hops from `vc` through Done, error-free tasks and read
    /// the terminal cell, recording an edge per hop for the tracked current
    /// task. Never executes anything: a chain task that is not Done blocks
    /// the walk (after being scheduled if it was dormant or dirty).
    #[verifier::rlimit(100)]
    pub fn walk_chain(&mut self, vc: RawVc, tracked_read: bool, budget: u64) -> (r: WalkOutcome)
        requires
            old(self).wf(),
            old(self).valid_handle(vc),
        ensures
            final(self).wf(),
            final(self).n_tasks() == old(self).n_tasks(),
            final(self).registry == old(self).registry,
            final(self).current_task == old(self).current_task,
            same_keys(*old(self), *final(self)),
            versions_monotone(*old(self), *final(self)),
            executions_monotone(*old(self), *final(self)),
            running_preserved(*old(self), *final(self)),
            running_untouched(*old(self), *final(self)),
            no_new_running(*old(self), *final(self)),
            // only scheduling and edge recording happen here
            forall|w: int|
                0 <= w < old(self).n_tasks() ==> {
                    &&& (#[trigger] final(self).tasks@[w]).output.value == old(
                        self,
                    ).tasks@[w].output.value
                    &&& final(self).tasks@[w].output.version == old(self).tasks@[w].output.version
                    &&& final(self).tasks@[w].error == old(self).tasks@[w].error
                    &&& final(self).tasks@[w].executions == old(self).tasks@[w].executions
                    &&& final(self).tasks@[w].cells@.len() == old(self).tasks@[w].cells@.len()
                    &&& (forall|j: int|
                        0 <= j < old(self).tasks@[w].cells@.len() ==> {
                            &&& (#[trigger] final(self).tasks@[w].cells@[j]).content == old(
                                self,
                            ).tasks@[w].cells@[j].content
                            &&& final(self).tasks@[w].cells@[j].version == old(
                                self,
                            ).tasks@[w].cells@[j].version
                        })
                    &&& (final(self).tasks@[w].state == old(self).tasks@[w].state || ((old(
                        self,
                    ).tasks@[w].state is Dormant || old(self).tasks@[w].state is Dirty)
                        && final(self).tasks@[w].state is Scheduled))
                },
            // reaching the cell takes no scheduling at all
            r is Reached ==> forall|w: int|
                0 <= w < old(self).n_tasks() ==> (#[trigger] final(self).tasks@[w]).state == old(
                    self,
                ).tasks@[w].state,
            // the payload is the terminal cell's content under the chase
            r matches WalkOutcome::Reached(p) ==> exists|d: nat|
                d <= budget && ((#[trigger] old(self).chase(vc, d)) matches Some(c) && (old(
                    self,
                ).cell_content(c->TaskCell_0 as int, c->TaskCell_1 as int) matches Some(q) && q.0
                    == p.0 && q.1@ == p.1@)),
            // an untracked walk, or one with no tracker, records nothing
            (!tracked_read || old(self).current_task is None) ==> forall|w: int|
                0 <= w < old(self).n_tasks() ==> (#[trigger] final(self).tasks@[w]).edges == old(
                    self,
                ).tasks@[w].edges,
            // recording goes only to the tracked current task's read-set
            forall|w: int|
                0 <= w < old(self).n_tasks() && old(self).current_task != Some(w as TaskId)
                    ==> (#[trigger] final(self).tasks@[w]).edges == old(self).tasks@[w].edges,
            // a tracked read that reaches the cell records an edge on it at
            // its current version, as the last entry of the reader's
            // read-set
            old(self).current_task matches Some(rd) ==> ((tracked_read && r is Reached)
                ==> exists|d: nat|
                d <= budget && ((#[trigger] old(self).chase(vc, d)) matches Some(c)
                    && final(self).tasks@[rd as int].edges@.len() > 0
                    && final(self).tasks@[rd as int].edges@.last() == (
                c,
                old(self).slot_version(c),
                ))),
            // a handle that is already a filled cell is read at once
            (vc matches RawVc::TaskCell(ct, ci) && old(self).cell_content(ct as int, ci as int)
                is Some) ==> r is Reached,
            // a first hop holding a memoized failure surfaces it
            (budget > 0 && (vc matches RawVc::TaskOutput(u) && (old(
                self,
            ).tasks@[u as int].state is Done && old(self).tasks@[u as int].error matches Some(m))))
                ==> r == WalkOutcome::Failed(
                ReadError::TaskError(old(self).tasks@[vc->TaskOutput_0 as int].error->Some_0),
            ),
            // a blocked walk hands back a valid handle to retry from
            r matches WalkOutcome::Blocked(h) ==> final(self).valid_handle(h),
    {
        let ghost pre = *self;
        let ghost direct = (vc matches RawVc::TaskCell(ct, ci) && pre.cell_content(
            ct as int,
            ci as int,
        ) is Some);
        let ghost firsterr = (vc matches RawVc::TaskOutput(u) && (pre.tasks@[u as int].state
            is Done && pre.tasks@[u as int].error is Some));
        let mut current: RawVc = vc;
        let mut steps: u64 = budget;
        let ghost mut d: nat = 0nat;
        loop
            invariant
                pre == *old(self),
                direct == (vc matches RawVc::TaskCell(ct, ci) && pre.cell_content(
                    ct as int,
                    ci as int,
                ) is Some),
                firsterr == (vc matches RawVc::TaskOutput(u) && (pre.tasks@[u as int].state
                    is Done && pre.tasks@[u as int].error is Some)),
                self.wf(),
                self.valid_handle(current),
                steps <= budget,
                d <= budget - steps,
                self.n_tasks() == pre.n_tasks(),
                self.registry == pre.registry,
                self.current_task == pre.current_task,
                same_keys(pre, *self),
                versions_monotone(pre, *self),
                executions_monotone(pre, *self),
                running_preserved(pre, *self),
                no_new_running(pre, *self),
                running_untouched(pre, *self),
                forall|w: int|
                    0 <= w < pre.n_tasks() ==> {
                        &&& (#[trigger] self.tasks@[w]).output.value == pre.tasks@[w].output.value
                        &&& self.tasks@[w].output.version == pre.tasks@[w].output.version
                        &&& self.tasks@[w].error == pre.tasks@[w].error
                        &&& self.tasks@[w].executions == pre.tasks@[w].executions
                        &&& self.tasks@[w].cells@.len() == pre.tasks@[w].cells@.len()
                        &&& (forall|j: int|
                            0 <= j < pre.tasks@[w].cells@.len() ==> {
                                &&& (#[trigger] self.tasks@[w].cells@[j]).content
                                    == pre.tasks@[w].cells@[j].content
                                &&& self.tasks@[w].cells@[j].version
                                    == pre.tasks@[w].cells@[j].version
                            })
                        &&& (self.tasks@[w].state == pre.tasks@[w].state || ((pre.tasks@[w].state
                            is Dormant || pre.tasks@[w].state is Dirty) && self.tasks@[w].state
                            is Scheduled))
                    },
                forall|w: int|
                    0 <= w < pre.n_tasks() ==> (#[trigger] self.tasks@[w]).state
                        == pre.tasks@[w].state,
                (!tracked_read || pre.current_task is None) ==> forall|w: int|
                    0 <= w < pre.n_tasks() ==> (#[trigger] self.tasks@[w]).edges
                        == pre.tasks@[w].edges,
                forall|w: int|
                    0 <= w < pre.n_tasks() && pre.current_task != Some(w as TaskId)
                        ==> (#[trigger] self.tasks@[w]).edges == pre.tasks@[w].edges,
                direct ==> (current == vc && self.cell_content(
                    vc->TaskCell_0 as int,
                    vc->TaskCell_1 as int,
                ) == pre.cell_content(vc->TaskCell_0 as int, vc->TaskCell_1 as int)),
                firsterr ==> (current == vc && steps == budget
                    && self.tasks@[vc->TaskOutput_0 as int]
                    == pre.tasks@[vc->TaskOutput_0 as int]),
                forall|dd: nat|
                    (#[trigger] pre.chase(current, dd)) is Some ==> pre.chase(vc, (d + dd) as nat)
                        == pre.chase(current, dd),
            decreases steps,
        {
            match current {
                RawVc::TaskCell(u, i) => {
                    match self.try_read_task_cell(u, i) {
                        TryRead::Ready(c) => {
                            proof {
                                assert(pre.chase(current, 0nat) == Some(current));
                                assert(pre.chase(vc, d) == Some(current));
                                assert(pre.cell_content(u as int, i as int)
                                    == self.cell_content(u as int, i as int));
                            }
                            if tracked_read {
                                match self.current_task {
                                    Option::Some(reader) => {
                                        let v = self.slot_version_exec(RawVc::TaskCell(u, i));
                                        self.record_read(reader, RawVc::TaskCell(u, i), v);
                                        proof {
                                            assert(v == pre.slot_version(current));
                                            assert(self.tasks@[reader as int].edges@.last() == (
                                            current,
                                            pre.slot_version(current),
                                            ));
                                            assert(self.tasks@[reader as int].edges@.len() > 0);
                                        }
                                    },
                                    Option::None => {},
                                }
                            }
                            return WalkOutcome::Reached(c);
                        },
                        TryRead::Pending => {
                            return WalkOutcome::Blocked(current);
                        },
                        TryRead::Failed(e) => {
                            return WalkOutcome::Failed(e);
                        },
                    }
                },
                RawVc::TaskOutput(u) => {
                    if steps == 0 {
                        return WalkOutcome::Blocked(current);
                    }
                    let is_ready_target = match self.tasks[u].state {
                        TaskState::Done => true,
                        _ => false,
                    };
                    if !is_ready_target {
                        let ghost beforesched = *self;
                        match self.try_read_task_output(u, false) {
                            TryRead::Ready(_) => {
                                proof {
                                    assert(false);
                                }
                            },
                            _ => {},
                        }
                        return WalkOutcome::Blocked(current);
                    }
                    match self.try_read_task_output(u, false) {
                        TryRead::Ready(h) => {
                            proof {
                                assert(self.task_wf(u as int));
                                assert(pre.hop(current) == Some(h));
                                assert forall|dd: nat|
                                    (#[trigger] pre.chase(h, dd)) is Some implies pre.chase(
                                    vc,
                                    (d + 1 + dd) as nat,
                                ) == pre.chase(h, dd) by {
                                    assert(pre.chase(current, (dd + 1) as nat) == pre.chase(
                                        h,
                                        dd,
                                    ));
                                }
                                d = (d + 1) as nat;
                            }
                            if tracked_read {
                                match self.current_task {
                                    Option::Some(reader) => {
                                        let v = self.slot_version_exec(RawVc::TaskOutput(u));
                                        self.record_read(reader, RawVc::TaskOutput(u), v);
                                    },
                                    Option::None => {},
                                }
                            }
                            current = h;
                            steps = steps - 1;
                        },
                        TryRead::Pending => {
                            return WalkOutcome::Blocked(current);
                        },
                        TryRead::Failed(e) => {
                            return WalkOutcome::Failed(e);
                        },
                    }
                },
            }
        }
    }
}


} // verus!
