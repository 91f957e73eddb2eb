//! Handles: indirect references to a task's output or to a specific cell.

use vstd::prelude::*;
use std::sync::Arc;
use vstd::string::StringExecFns;
use crate::{TaskId, TraitTypeId, ValueTypeId};
use crate::backend::{SharedReference, TaskState};
use crate::manager::{
    executions_monotone, same_keys, versions_monotone, ReadError, TryRead, TurboTasks,
    WalkOutcome,
};

verus! {

/// An indirect reference to a value produced by a task: either the task's
/// still-unresolved output, or a direct reference to one of its cells.
///
/// Handles are cheap, copyable names; they carry no ownership.
#[derive(Debug, Clone, Copy, PartialEq, Eq, Structural, Hash)]
pub enum RawVc {
    /// The output of a task; reading follows the task's output slot.
    TaskOutput(TaskId),
    /// Cell `index` of a task; reading returns the cell's content.
    TaskCell(TaskId, usize),
}

impl RawVc {
    /// A handle is resolved iff it points directly at a cell.
    pub fn is_resolved(&self) -> (r: bool)
        ensures
            r == self is TaskCell,
    {
        match self {
            RawVc::TaskOutput(_) => false,
            RawVc::TaskCell(_, _) => true,
        }
    }

    /// The task this handle belongs to, whichever variant it is.
    pub fn get_task_id(&self) -> (r: TaskId)
        ensures
            r == self.spec_task_id(),
    {
        match self {
            RawVc::TaskOutput(t) => *t,
            RawVc::TaskCell(t, _) => *t,
        }
    }

    /// The task id named by this handle.
    pub open spec fn spec_task_id(self) -> TaskId {
        match self {
            RawVc::TaskOutput(t) => t,
            RawVc::TaskCell(t, _) => t,
        }
    }
}


/// Failure modes of typed value / trait resolution.
#[derive(Debug, Clone, PartialEq, Eq)]
pub enum ResolveTypeError {
    /// The terminal cell is empty.
    NoContent,
    /// The terminal cell's content carries no value-type tag.
    UntypedContent,
    /// The producing task failed; the cause is its memoized error.
    TaskError(String),
    /// The read itself could not finish (cycle or exhausted budget).
    ReadError(String),
}

/// The result of reading a handle: a shared hold on the value.
///
/// The content of a cell can change concurrently, so a read hands out a
/// counted reference to the payload rather than a borrow of the cell.
pub struct RawVcReadResult<T> {
    inner: Arc<T>,
}

impl<T> RawVcReadResult<T> {
    /// The shared value this result holds.
    pub closed spec fn spec_inner(self) -> Arc<T> {
        self.inner
    }

    /// Wrap a shared value.
    pub fn new(shared_ref: Arc<T>) -> (r: Self)
        ensures
            r.spec_inner() == shared_ref,
    {
        RawVcReadResult { inner: shared_ref }
    }

    /// Post-compose a projection to run on each dereference.
    pub fn map_read_result<O, F: Fn(&T) -> &O>(self, func: F) -> (r: RawVcReadAndMapResult<T, O, F>)
        ensures
            r.spec_inner() == self.spec_inner(),
    {
        RawVcReadAndMapResult { inner: self.inner, func }
    }

    /// Hand the shared value back out.
    pub fn into_arc(self) -> (r: Arc<T>)
        ensures
            r == self.spec_inner(),
    {
        self.inner
    }
}

/// A read result together with a projection into the value.
#[verifier::reject_recursive_types(O)]
pub struct RawVcReadAndMapResult<T, O, F: Fn(&T) -> &O> {
    inner: Arc<T>,
    func: F,
}

impl<T, O, F: Fn(&T) -> &O> RawVcReadAndMapResult<T, O, F> {
    /// The shared value this result holds.
    pub closed spec fn spec_inner(self) -> Arc<T> {
        self.inner
    }
}

/// What one non-blocking step of a handle read produced.
#[derive(Debug)]
pub enum ReadPoll {
    /// The read settled: the payload, or its failure.
    Ready(Result<SharedReference, ReadError>),
    /// The target is not available yet; run the scheduler and poll again.
    Pending,
}

/// An in-flight read of a handle: follows output hops, then reads the
/// terminal cell.
///
/// The strongly-consistent flag is cleared after the first successful hop,
/// but the driver settles the whole engine before every hop of a strong
/// read — deliberately stronger than a single-level strong first hop, so
/// that the value returned is computed after every pending invalidation,
/// transitive ones included, has been worked off.
pub struct ReadRawVcFuture {
    pub strongly_consistent: bool,
    pub current: RawVc,
}

impl ReadRawVcFuture {
    /// A read of a handle with ordinary consistency.
    fn new(vc: RawVc) -> (r: ReadRawVcFuture)
        ensures
            r.current == vc,
            !r.strongly_consistent,
    {
        ReadRawVcFuture { strongly_consistent: false, current: vc }
    }

    /// A read that refuses to observe stale state.
    fn new_strongly_consistent(vc: RawVc) -> (r: ReadRawVcFuture)
        ensures
            r.current == vc,
            r.strongly_consistent,
    {
        ReadRawVcFuture { strongly_consistent: true, current: vc }
    }

    /// One cooperative step: follow hops while targets answer immediately,
    /// stop at Pending when the engine must run tasks first. Never executes
    /// anything itself; it records an edge per hop for the tracked current
    /// task, reads a filled terminal cell at once, surfaces a Done target's
    /// memoized failure, and clears the strong flag as soon as the first
    /// hop succeeds.
    ///
    /// Polling performs ordinary hops even for a strongly-consistent
    /// future: the settle-the-engine duty of a strong read is delivered by
    /// `drive`, which drains every pending invalidation before walking. A
    /// strong read completed by polling and turning by hand may still
    /// observe a chain that further turns would have re-executed.
    pub fn poll(&mut self, tt: &mut TurboTasks, fuel: u64) -> (r: ReadPoll)
        requires
            old(tt).wf(),
            old(tt).valid_handle(old(self).current),
        ensures
            final(tt).wf(),
            final(tt).valid_handle(final(self).current),
            same_keys(*old(tt), *final(tt)),
            versions_monotone(*old(tt), *final(tt)),
            executions_monotone(*old(tt), *final(tt)),
            final(tt).n_tasks() == old(tt).n_tasks(),
            final(tt).current_task == old(tt).current_task,
            forall|u: int|
                0 <= u < old(tt).n_tasks() ==> (#[trigger] final(tt).tasks@[u]).executions == old(
                    tt,
                ).tasks@[u].executions,
            // polling never publishes, never finishes a task and never
            // forgets a memoized failure: outputs, errors and contents are
            // carried unchanged, and states move only into Scheduled
            forall|u: int|
                0 <= u < old(tt).n_tasks() ==> {
                    &&& (#[trigger] final(tt).tasks@[u]).output.value == old(
                        tt,
                    ).tasks@[u].output.value
                    &&& final(tt).tasks@[u].output.version == old(tt).tasks@[u].output.version
                    &&& final(tt).tasks@[u].error == old(tt).tasks@[u].error
                    &&& final(tt).tasks@[u].cells@.len() == old(tt).tasks@[u].cells@.len()
                    &&& (forall|j: int|
                        0 <= j < old(tt).tasks@[u].cells@.len() ==> {
                            &&& (#[trigger] final(tt).tasks@[u].cells@[j]).content == old(
                                tt,
                            ).tasks@[u].cells@[j].content
                            &&& final(tt).tasks@[u].cells@[j].version == old(
                                tt,
                            ).tasks@[u].cells@[j].version
                        })
                    &&& (final(tt).tasks@[u].state == old(tt).tasks@[u].state || ((old(
                        tt,
                    ).tasks@[u].state is Dormant || old(tt).tasks@[u].state is Dirty)
                        && final(tt).tasks@[u].state is Scheduled))
                    &&& (old(tt).current_task != Some(u as TaskId)
                        ==> final(tt).tasks@[u].edges == old(tt).tasks@[u].edges)
                },
            // a tracked read that settles records an edge on the terminal
            // cell at its current version
            old(tt).current_task matches Some(rd) ==> (r matches ReadPoll::Ready(res) ==> (res
                is Ok ==> exists|d: nat|
                d <= fuel && ((#[trigger] old(tt).chase(old(self).current, d)) matches Some(c)
                    && final(tt).tasks@[rd as int].edges@.len() > 0
                    && final(tt).tasks@[rd as int].edges@.last() == (
                c,
                old(tt).slot_version(c),
                )))),
            // a successful read is the terminal cell's content under the
            // chase of output slots
            r matches ReadPoll::Ready(res) ==> (res matches Ok(p) ==> exists|d: nat|
                d <= fuel && ((#[trigger] old(tt).chase(old(self).current, d)) matches Some(c) && (
                old(tt).cell_content(c->TaskCell_0 as int, c->TaskCell_1 as int) matches Some(q)
                    && q.0 == p.0 && q.1@ == p.1@))),
            // a handle that is already a filled cell answers immediately
            (old(self).current matches RawVc::TaskCell(ct, ci) && old(tt).cell_content(
                ct as int,
                ci as int,
            ) is Some) ==> (r matches ReadPoll::Ready(res) && (res matches Ok(p) && p.0 == old(
                tt,
            ).cell_content(
                old(self).current->TaskCell_0 as int,
                old(self).current->TaskCell_1 as int,
            )->Some_0.0 && p.1@ == old(tt).cell_content(
                old(self).current->TaskCell_0 as int,
                old(self).current->TaskCell_1 as int,
            )->Some_0.1@)),
            // a Done target with a memoized failure answers with its cause
            (fuel > 0 && (old(self).current matches RawVc::TaskOutput(u) && (old(
                tt,
            ).tasks@[u as int].state is Done && old(tt).tasks@[u as int].error matches Some(m))))
                ==> r == ReadPoll::Ready(
                Result::Err(
                    ReadError::TaskError(
                        old(tt).tasks@[old(self).current->TaskOutput_0 as int].error->Some_0,
                    ),
                ),
            ),
            // strong consistency is single-level: the flag does not survive
            // a successful hop
            final(self).current != old(self).current ==> !final(self).strongly_consistent,
            final(self).current == old(self).current ==> final(self).strongly_consistent == old(
                self,
            ).strongly_consistent,
    {
        let ghost pre = *tt;
        let ghost vc0 = self.current;
        match tt.walk_chain(self.current, true, fuel) {
            WalkOutcome::Reached(p) => {
                proof {
                    if vc0 is TaskCell {
                        let d = choose|d: nat|
                            d <= fuel && ((#[trigger] pre.chase(vc0, d)) matches Some(c) && (
                            pre.cell_content(c->TaskCell_0 as int, c->TaskCell_1 as int)
                                matches Some(q) && q.0 == p.0 && q.1@ == p.1@));
                        assert(pre.chase(vc0, d) == Some(vc0));
                    }
                }
                ReadPoll::Ready(Result::Ok(p))
            },
            WalkOutcome::Failed(e) => ReadPoll::Ready(Result::Err(e)),
            WalkOutcome::Blocked(h) => {
                let moved = !(h == self.current);
                if moved {
                    self.current = h;
                    self.strongly_consistent = false;
                }
                ReadPoll::Pending
            },
        }
    }

    /// Drive the read to completion, running tasks as needed. A successful
    /// strongly-consistent read settles the engine and returns exactly the
    /// terminal cell's content of the settled state; a plain read of a
    /// Done, error-free chain with no tracker returns the terminal cell's
    /// content and changes nothing.
    pub fn drive(self, tt: &mut TurboTasks, fuel: u64) -> (r: Result<SharedReference, ReadError>)
        requires
            old(tt).wf(),
            old(tt).valid_handle(self.current),
        ensures
            final(tt).wf(),
            same_keys(*old(tt), *final(tt)),
            versions_monotone(*old(tt), *final(tt)),
            executions_monotone(*old(tt), *final(tt)),
            final(tt).current_task == old(tt).current_task,
            self.strongly_consistent && r is Ok ==> final(tt).no_ready(),
            self.strongly_consistent ==> (r matches Ok(p) ==> exists|d: nat|
                (#[trigger] final(tt).chase(self.current, d)) matches Some(c)
                    && (final(tt).cell_content(
                    c->TaskCell_0 as int,
                    c->TaskCell_1 as int,
                ) matches Some(q) && q.0 == p.0 && q.1@ == p.1@)),
            // a plain read of a first hop holding a memoized failure
            // surfaces exactly that cause
            (!self.strongly_consistent && fuel > 0 && (self.current matches RawVc::TaskOutput(fu)
                && (old(tt).tasks@[fu as int].state is Done && old(
                tt,
            ).tasks@[fu as int].error matches Some(m)))) ==> r == Err::<
                SharedReference,
                ReadError,
            >(ReadError::TaskError(
                old(tt).tasks@[self.current->TaskOutput_0 as int].error->Some_0,
            )),
            (!self.strongly_consistent && old(tt).current_task is None && fuel > 0 && (old(
                tt,
            ).chase(self.current, (fuel - 1) as nat) matches Some(c) && old(tt).cell_content(
                c->TaskCell_0 as int,
                c->TaskCell_1 as int,
            ) is Some)) ==> (r matches Ok(p) && p.0 == old(tt).cell_content(
                old(tt).chase(self.current, (fuel - 1) as nat)->Some_0->TaskCell_0 as int,
                old(tt).chase(self.current, (fuel - 1) as nat)->Some_0->TaskCell_1 as int,
            )->Some_0.0 && p.1@ == old(tt).cell_content(
                old(tt).chase(self.current, (fuel - 1) as nat)->Some_0->TaskCell_0 as int,
                old(tt).chase(self.current, (fuel - 1) as nat)->Some_0->TaskCell_1 as int,
            )->Some_0.1@) && *final(tt) == *old(tt),
    {
        tt.read_internal(self.current, self.strongly_consistent, true, fuel)
    }
}

impl RawVc {
    /// A future reading this handle's terminal cell.
    pub fn into_read(self) -> (r: ReadRawVcFuture)
        ensures
            r.current == self,
            !r.strongly_consistent,
    {
        // a concrete future, not a boxed one, so the caller has something
        // sized to hold on to
        ReadRawVcFuture::new(self)
    }

    /// A future reading this handle with strong consistency: the engine is
    /// settled before the value is taken.
    pub fn into_strongly_consistent_read(self) -> (r: ReadRawVcFuture)
        ensures
            r.current == self,
            r.strongly_consistent,
    {
        ReadRawVcFuture::new_strongly_consistent(self)
    }

    /// Read without recording a dependency edge.
    ///
    /// INVALIDATION: Be careful with this, it will not track dependencies,
    /// so using it could break cache invalidation.
    pub fn into_read_untracked(self, tt: &mut TurboTasks, fuel: u64) -> (r: Result<
        SharedReference,
        ReadError,
    >)
        requires
            old(tt).wf(),
            old(tt).valid_handle(self),
        ensures
            final(tt).wf(),
            same_keys(*old(tt), *final(tt)),
            versions_monotone(*old(tt), *final(tt)),
            executions_monotone(*old(tt), *final(tt)),
            final(tt).current_task == old(tt).current_task,
            // the calling task's read-set is untouched: no dependency edge
            // is recorded by this read
            old(tt).current_task matches Some(rd) ==> final(tt).tasks@[rd as int].edges == old(
                tt,
            ).tasks@[rd as int].edges,
            (old(tt).current_task is None && fuel > 0 && (old(tt).chase(self, (fuel - 1) as nat)
                matches Some(c) && old(tt).cell_content(
                c->TaskCell_0 as int,
                c->TaskCell_1 as int,
            ) is Some)) ==> (r matches Ok(p) && p.0 == old(tt).cell_content(
                old(tt).chase(self, (fuel - 1) as nat)->Some_0->TaskCell_0 as int,
                old(tt).chase(self, (fuel - 1) as nat)->Some_0->TaskCell_1 as int,
            )->Some_0.0 && p.1@ == old(tt).cell_content(
                old(tt).chase(self, (fuel - 1) as nat)->Some_0->TaskCell_0 as int,
                old(tt).chase(self, (fuel - 1) as nat)->Some_0->TaskCell_1 as int,
            )->Some_0.1@) && *final(tt) == *old(tt),
    {
        self.into_read_untracked_internal(false, tt, fuel)
    }

    /// Strongly-consistent read without recording a dependency edge.
    ///
    /// INVALIDATION: Be careful with this, it will not track dependencies,
    /// so using it could break cache invalidation.
    pub fn into_strongly_consistent_read_untracked(self, tt: &mut TurboTasks, fuel: u64) -> (r:
        Result<SharedReference, ReadError>)
        requires
            old(tt).wf(),
            old(tt).valid_handle(self),
        ensures
            final(tt).wf(),
            same_keys(*old(tt), *final(tt)),
            versions_monotone(*old(tt), *final(tt)),
            executions_monotone(*old(tt), *final(tt)),
            final(tt).current_task == old(tt).current_task,
            // the calling task's read-set is untouched: no dependency edge
            // is recorded by this read
            old(tt).current_task matches Some(rd) ==> final(tt).tasks@[rd as int].edges == old(
                tt,
            ).tasks@[rd as int].edges,
            r is Ok ==> final(tt).no_ready(),
            r matches Ok(p) ==> exists|d: nat|
                (#[trigger] final(tt).chase(self, d)) matches Some(c) && (final(tt).cell_content(
                    c->TaskCell_0 as int,
                    c->TaskCell_1 as int,
                ) matches Some(q) && q.0 == p.0 && q.1@ == p.1@),
    {
        self.into_read_untracked_internal(true, tt, fuel)
    }

    /// The untracked read loop shared by both untracked entry points.
    fn into_read_untracked_internal(
        self,
        strongly_consistent: bool,
        tt: &mut TurboTasks,
        fuel: u64,
    ) -> (r: Result<SharedReference, ReadError>)
        requires
            old(tt).wf(),
            old(tt).valid_handle(self),
        ensures
            final(tt).wf(),
            same_keys(*old(tt), *final(tt)),
            versions_monotone(*old(tt), *final(tt)),
            executions_monotone(*old(tt), *final(tt)),
            final(tt).current_task == old(tt).current_task,
            // the calling task's read-set is untouched: no dependency edge
            // is recorded by this read
            old(tt).current_task matches Some(rd) ==> final(tt).tasks@[rd as int].edges == old(
                tt,
            ).tasks@[rd as int].edges,
            strongly_consistent && r is Ok ==> final(tt).no_ready(),
            strongly_consistent ==> (r matches Ok(p) ==> exists|d: nat|
                (#[trigger] final(tt).chase(self, d)) matches Some(c) && (final(tt).cell_content(
                    c->TaskCell_0 as int,
                    c->TaskCell_1 as int,
                ) matches Some(q) && q.0 == p.0 && q.1@ == p.1@)),
            (!strongly_consistent && old(tt).current_task is None && fuel > 0 && (old(tt).chase(
                self,
                (fuel - 1) as nat,
            ) matches Some(c) && old(tt).cell_content(
                c->TaskCell_0 as int,
                c->TaskCell_1 as int,
            ) is Some)) ==> (r matches Ok(p) && p.0 == old(tt).cell_content(
                old(tt).chase(self, (fuel - 1) as nat)->Some_0->TaskCell_0 as int,
                old(tt).chase(self, (fuel - 1) as nat)->Some_0->TaskCell_1 as int,
            )->Some_0.0 && p.1@ == old(tt).cell_content(
                old(tt).chase(self, (fuel - 1) as nat)->Some_0->TaskCell_0 as int,
                old(tt).chase(self, (fuel - 1) as nat)->Some_0->TaskCell_1 as int,
            )->Some_0.1@) && *final(tt) == *old(tt),
    {
        tt.notify_scheduled_tasks();
        tt.read_internal(self, strongly_consistent, false, fuel)
    }

    /// Collapse an output handle to its terminal cell handle without
    /// reading the payload.
    ///
    /// Resolution is idempotent: a handle that is already a cell handle
    /// comes back unchanged, and the engine untouched — so resolving a
    /// resolved handle is the identity.
    pub fn resolve(self, tt: &mut TurboTasks, fuel: u64) -> (r: Result<RawVc, ReadError>)
        requires
            old(tt).wf(),
            old(tt).valid_handle(self),
        ensures
            final(tt).wf(),
            same_keys(*old(tt), *final(tt)),
            versions_monotone(*old(tt), *final(tt)),
            executions_monotone(*old(tt), *final(tt)),
            final(tt).current_task == old(tt).current_task,
            r matches Ok(h) ==> h is TaskCell && final(tt).valid_handle(h),
            self is TaskCell ==> r == Ok::<RawVc, ReadError>(self) && *final(tt) == *old(tt),
            (old(tt).current_task is None && old(tt).chase(self, fuel as nat) is Some) ==> r
                == Ok::<RawVc, ReadError>(old(tt).chase(self, fuel as nat)->Some_0) && *final(tt)
                == *old(tt),
        decreases fuel,
    {
        let ghost pre = *tt;
        let ghost pure_walk = pre.current_task is None && pre.chase(self, fuel as nat) is Some;
        let mut current: RawVc = self;
        let mut notified: bool = false;
        let mut remaining: u64 = fuel;
        loop
            invariant
                pre == *old(tt),
                pure_walk == (pre.current_task is None && pre.chase(self, fuel as nat) is Some),
                tt.wf(),
                tt.valid_handle(current),
                remaining <= fuel,
                same_keys(pre, *tt),
                versions_monotone(pre, *tt),
                executions_monotone(pre, *tt),
                tt.current_task == pre.current_task,
                self is TaskCell ==> (*tt == pre && current == self),
                pure_walk ==> (*tt == pre && pre.chase(current, remaining as nat) == pre.chase(
                    self,
                    fuel as nat,
                )),
            decreases remaining,
        {
            match current {
                RawVc::TaskCell(_, _) => {
                    return Result::Ok(current);
                },
                RawVc::TaskOutput(u) => {
                    if remaining == 0 {
                        return Result::Err(ReadError::FuelExhausted);
                    }
                    if !notified {
                        tt.notify_scheduled_tasks();
                        notified = true;
                    }
                    match tt.try_read_task_output(u, false) {
                        TryRead::Ready(h) => {
                            proof {
                                assert(tt.task_wf(u as int));
                            }
                            match tt.current_task {
                                Option::Some(reader) => {
                                    let v = tt.slot_version_exec(RawVc::TaskOutput(u));
                                    tt.record_read(reader, RawVc::TaskOutput(u), v);
                                },
                                Option::None => {},
                            }
                            current = h;
                        },
                        TryRead::Pending => {
                            let is_running = match tt.tasks[u].state {
                                TaskState::Running => true,
                                _ => false,
                            };
                            if is_running {
                                return Result::Err(ReadError::CycleDetected);
                            }
                            let can_run = match tt.tasks[u].state {
                                TaskState::Scheduled | TaskState::Dirty | TaskState::Dormant
                                => true,
                                _ => false,
                            };
                            if can_run {
                                tt.execute_task(u, remaining - 1);
                            }
                        },
                        TryRead::Failed(e) => {
                            return Result::Err(e);
                        },
                    }
                    remaining = remaining - 1;
                },
            }
        }
    }
}



impl RawVc {
    /// Walk the output chain to the first cell and return its handle iff
    /// the cell's content carries exactly the expected value type;
    /// `None` when the type differs. Failures distinguish the empty cell,
    /// untyped content, a failed producer, and a read that could not
    /// finish.
    ///
    /// For a handle that is already a cell handle the answer is exact in
    /// the starting state: matching tag gives `Some(self)`, a different tag
    /// gives `None`, a missing tag is UntypedContent, and an empty settled
    /// cell is NoContent.
    pub fn resolve_value(self, tt: &mut TurboTasks, value_type: ValueTypeId, fuel: u64) -> (r:
        Result<Option<RawVc>, ResolveTypeError>)
        requires
            old(tt).wf(),
            old(tt).valid_handle(self),
        ensures
            final(tt).wf(),
            same_keys(*old(tt), *final(tt)),
            versions_monotone(*old(tt), *final(tt)),
            executions_monotone(*old(tt), *final(tt)),
            final(tt).current_task == old(tt).current_task,
            r matches Ok(Some(h)) ==> h is TaskCell && final(tt).valid_handle(h),
            (self matches RawVc::TaskCell(ct, ci) && old(tt).cell_content(ct as int, ci as int)
                matches Some(c)) ==> match old(tt).cell_content(
                self->TaskCell_0 as int,
                self->TaskCell_1 as int,
            )->Some_0.0 {
                Some(vt) => if vt == value_type {
                    r == Ok::<Option<RawVc>, ResolveTypeError>(Some(self))
                } else {
                    r == Ok::<Option<RawVc>, ResolveTypeError>(None)
                },
                None => r == Err::<Option<RawVc>, ResolveTypeError>(
                    ResolveTypeError::UntypedContent,
                ),
            },
            (self matches RawVc::TaskCell(ct, ci) && old(tt).cell_content(ct as int, ci as int)
                is None && (old(tt).tasks@[ct as int].state is Done || old(
                tt,
            ).tasks@[ct as int].state is Dormant)) ==> r == Err::<
                Option<RawVc>,
                ResolveTypeError,
            >(ResolveTypeError::NoContent),
            // with no tracker, a settled chain is classified exactly by its
            // terminal cell, and the engine is untouched
            (old(tt).current_task is None && (old(tt).chase(self, fuel as nat) matches Some(cc)
                && old(tt).cell_content(cc->TaskCell_0 as int, cc->TaskCell_1 as int) is Some))
                ==> *final(tt) == *old(tt) && (match old(tt).chase_payload(
                self,
                fuel as nat,
            )->Some_0.0 {
                Some(vt) => if vt == value_type {
                    r == Ok::<Option<RawVc>, ResolveTypeError>(
                        Some(old(tt).chase(self, fuel as nat)->Some_0),
                    )
                } else {
                    r == Ok::<Option<RawVc>, ResolveTypeError>(None)
                },
                None => r == Err::<Option<RawVc>, ResolveTypeError>(
                    ResolveTypeError::UntypedContent,
                ),
            }),
            (old(tt).current_task is None && (old(tt).chase(self, fuel as nat) matches Some(cc)
                && old(tt).cell_content(cc->TaskCell_0 as int, cc->TaskCell_1 as int) is None && (
            old(tt).tasks@[cc->TaskCell_0 as int].state is Done || old(
                tt,
            ).tasks@[cc->TaskCell_0 as int].state is Dormant))) ==> r == Err::<
                Option<RawVc>,
                ResolveTypeError,
            >(ResolveTypeError::NoContent) && *final(tt) == *old(tt),
            // a first hop holding a memoized failure surfaces its cause
            (fuel > 0 && (self matches RawVc::TaskOutput(fu) && (old(
                tt,
            ).tasks@[fu as int].state is Done && old(tt).tasks@[fu as int].error matches Some(m))))
                ==> r == Err::<Option<RawVc>, ResolveTypeError>(
                ResolveTypeError::TaskError(
                    old(tt).tasks@[self->TaskOutput_0 as int].error->Some_0,
                ),
            ),
        decreases fuel,
    {
        let ghost pre = *tt;
        let ghost pure_walk = pre.current_task is None && (pre.chase(self, fuel as nat)
            matches Some(cc) && (pre.cell_content(cc->TaskCell_0 as int, cc->TaskCell_1 as int)
            is Some || (pre.tasks@[cc->TaskCell_0 as int].state is Done
            || pre.tasks@[cc->TaskCell_0 as int].state is Dormant)));
        let ghost firsterr = fuel > 0 && (self matches RawVc::TaskOutput(fu) && (
        pre.tasks@[fu as int].state is Done && pre.tasks@[fu as int].error is Some));
        tt.notify_scheduled_tasks();
        let mut current: RawVc = self;
        let mut remaining: u64 = fuel;
        loop
            invariant
                pre == *old(tt),
                tt.wf(),
                tt.valid_handle(current),
                remaining <= fuel,
                same_keys(pre, *tt),
                versions_monotone(pre, *tt),
                executions_monotone(pre, *tt),
                tt.current_task == pre.current_task,
                pure_walk == (pre.current_task is None && (pre.chase(self, fuel as nat)
                    matches Some(cc) && (pre.cell_content(
                    cc->TaskCell_0 as int,
                    cc->TaskCell_1 as int,
                ) is Some || (pre.tasks@[cc->TaskCell_0 as int].state is Done
                    || pre.tasks@[cc->TaskCell_0 as int].state is Dormant)))),
                firsterr == (fuel > 0 && (self matches RawVc::TaskOutput(fu) && (
                pre.tasks@[fu as int].state is Done && pre.tasks@[fu as int].error is Some))),
                firsterr ==> (*tt == pre && current == self && remaining == fuel),
                pure_walk ==> (*tt == pre && pre.chase(current, remaining as nat) == pre.chase(
                    self,
                    fuel as nat,
                )),
                (self matches RawVc::TaskCell(ct, ci) && (pre.cell_content(ct as int, ci as int)
                    is Some || pre.tasks@[ct as int].state is Done || pre.tasks@[ct as int].state
                    is Dormant)) ==> (*tt == pre && current == self),
            decreases remaining,
        {
            proof {
                if pure_walk {
                    assert(pre.chase(current, remaining as nat) is Some);
                    if current is TaskOutput {
                        let u0 = current->TaskOutput_0;
                        assert(pre.hop(current) is Some);
                        assert(pre.tasks@[u0 as int].state is Done);
                        assert(pre.tasks@[u0 as int].error is None);
                        assert(remaining as nat > 0);
                    }
                }
            }
            match current {
                RawVc::TaskOutput(u) => {
                    if remaining == 0 {
                        return Result::Err(ResolveTypeError::ReadError(
                            String::from_str("ran out of scheduling budget"),
                        ));
                    }
                    match tt.try_read_task_output(u, false) {
                        TryRead::Ready(h) => {
                            proof {
                                assert(tt.task_wf(u as int));
                                if pure_walk {
                                    assert(pre.hop(current) == Some(h));
                                    assert(pre.chase(current, remaining as nat) == pre.chase(
                                        h,
                                        (remaining - 1) as nat,
                                    ));
                                }
                            }
                            match tt.current_task {
                                Option::Some(reader) => {
                                    let v = tt.slot_version_exec(RawVc::TaskOutput(u));
                                    tt.record_read(reader, RawVc::TaskOutput(u), v);
                                },
                                Option::None => {},
                            }
                            current = h;
                        },
                        TryRead::Pending => {
                            proof {
                                if pure_walk {
                                    assert(false);
                                }
                            }
                            let is_running = match tt.tasks[u].state {
                                TaskState::Running => true,
                                _ => false,
                            };
                            if is_running {
                                return Result::Err(ResolveTypeError::ReadError(
                                    String::from_str("read depends on a task that is executing"),
                                ));
                            }
                            let can_run = match tt.tasks[u].state {
                                TaskState::Scheduled | TaskState::Dirty | TaskState::Dormant
                                => true,
                                _ => false,
                            };
                            if can_run {
                                tt.execute_task(u, remaining - 1);
                            }
                        },
                        TryRead::Failed(e) => {
                            proof {
                                if pure_walk {
                                    assert(false);
                                }
                            }
                            match e {
                                ReadError::TaskError(msg) => {
                                    return Result::Err(ResolveTypeError::TaskError(msg));
                                },
                                _ => {
                                    return Result::Err(ResolveTypeError::ReadError(
                                        read_error_text(&e),
                                    ));
                                },
                            }
                        },
                    }
                    remaining = remaining - 1;
                },
                RawVc::TaskCell(task, index) => {
                    proof {
                        if pure_walk {
                            assert(pre.chase(current, remaining as nat) == Some(current));
                            assert(current == pre.chase(self, fuel as nat)->Some_0);
                        }
                    }
                    match tt.try_read_task_cell(task, index) {
                        TryRead::Ready(content) => {
                            match tt.current_task {
                                Option::Some(reader) => {
                                    let v = tt.slot_version_exec(RawVc::TaskCell(task, index));
                                    tt.record_read(reader, RawVc::TaskCell(task, index), v);
                                },
                                Option::None => {},
                            }
                            match content.0 {
                                Some(cell_value_type) => {
                                    if cell_value_type == value_type {
                                        return Result::Ok(Some(RawVc::TaskCell(task, index)));
                                    } else {
                                        return Result::Ok(None);
                                    }
                                },
                                None => {
                                    return Result::Err(ResolveTypeError::UntypedContent);
                                },
                            }
                        },
                        TryRead::Pending => {
                            proof {
                                if pure_walk {
                                    assert(false);
                                }
                            }
                            if remaining == 0 {
                                return Result::Err(ResolveTypeError::ReadError(
                                    String::from_str("ran out of scheduling budget"),
                                ));
                            }
                            let is_running = match tt.tasks[task].state {
                                TaskState::Running => true,
                                _ => false,
                            };
                            if is_running {
                                return Result::Err(ResolveTypeError::ReadError(
                                    String::from_str("read depends on a task that is executing"),
                                ));
                            }
                            let can_run = match tt.tasks[task].state {
                                TaskState::Scheduled | TaskState::Dirty => true,
                                _ => false,
                            };
                            if can_run {
                                tt.execute_task(task, remaining - 1);
                            }
                            remaining = remaining - 1;
                        },
                        TryRead::Failed(_) => {
                            return Result::Err(ResolveTypeError::NoContent);
                        },
                    }
                },
            }
        }
    }

    /// Walk the output chain to the first cell and return its handle iff
    /// the cell's value type is a member of the given trait type's set;
    /// `None` otherwise.
    ///
    /// A tag that names no registered value type belongs to no trait and
    /// gives `None`. Looking such a tag up is a programmer error that would
    /// abort the process; this library's verified functions never panic, so
    /// the membership test is made total here instead, and the contract
    /// says exactly that.
    pub fn resolve_trait(self, tt: &mut TurboTasks, trait_type: TraitTypeId, fuel: u64) -> (r:
        Result<Option<RawVc>, ResolveTypeError>)
        requires
            old(tt).wf(),
            old(tt).valid_handle(self),
        ensures
            final(tt).wf(),
            same_keys(*old(tt), *final(tt)),
            versions_monotone(*old(tt), *final(tt)),
            executions_monotone(*old(tt), *final(tt)),
            final(tt).current_task == old(tt).current_task,
            r matches Ok(Some(h)) ==> h is TaskCell && final(tt).valid_handle(h),
            (self matches RawVc::TaskCell(ct, ci) && old(tt).cell_content(ct as int, ci as int)
                matches Some(c)) ==> match old(tt).cell_content(
                self->TaskCell_0 as int,
                self->TaskCell_1 as int,
            )->Some_0.0 {
                Some(vt) => if (vt as int) < old(tt).registry.value_types@.len() && old(
                    tt,
                ).registry.value_types@[vt as int].0.spec_has_trait(trait_type) {
                    r == Ok::<Option<RawVc>, ResolveTypeError>(Some(self))
                } else {
                    r == Ok::<Option<RawVc>, ResolveTypeError>(None)
                },
                None => r == Err::<Option<RawVc>, ResolveTypeError>(
                    ResolveTypeError::UntypedContent,
                ),
            },
            (self matches RawVc::TaskCell(ct, ci) && old(tt).cell_content(ct as int, ci as int)
                is None && (old(tt).tasks@[ct as int].state is Done || old(
                tt,
            ).tasks@[ct as int].state is Dormant)) ==> r == Err::<
                Option<RawVc>,
                ResolveTypeError,
            >(ResolveTypeError::NoContent),
            // with no tracker, a settled chain is classified exactly by its
            // terminal cell, and the engine is untouched
            (old(tt).current_task is None && (old(tt).chase(self, fuel as nat) matches Some(cc)
                && old(tt).cell_content(cc->TaskCell_0 as int, cc->TaskCell_1 as int) is Some))
                ==> *final(tt) == *old(tt) && (match old(tt).chase_payload(
                self,
                fuel as nat,
            )->Some_0.0 {
                Some(vt) => if (vt as int) < old(tt).registry.value_types@.len() && old(
                    tt,
                ).registry.value_types@[vt as int].0.spec_has_trait(trait_type) {
                    r == Ok::<Option<RawVc>, ResolveTypeError>(
                        Some(old(tt).chase(self, fuel as nat)->Some_0),
                    )
                } else {
                    r == Ok::<Option<RawVc>, ResolveTypeError>(None)
                },
                None => r == Err::<Option<RawVc>, ResolveTypeError>(
                    ResolveTypeError::UntypedContent,
                ),
            }),
            (old(tt).current_task is None && (old(tt).chase(self, fuel as nat) matches Some(cc)
                && old(tt).cell_content(cc->TaskCell_0 as int, cc->TaskCell_1 as int) is None && (
            old(tt).tasks@[cc->TaskCell_0 as int].state is Done || old(
                tt,
            ).tasks@[cc->TaskCell_0 as int].state is Dormant))) ==> r == Err::<
                Option<RawVc>,
                ResolveTypeError,
            >(ResolveTypeError::NoContent) && *final(tt) == *old(tt),
            // a first hop holding a memoized failure surfaces its cause
            (fuel > 0 && (self matches RawVc::TaskOutput(fu) && (old(
                tt,
            ).tasks@[fu as int].state is Done && old(tt).tasks@[fu as int].error matches Some(m))))
                ==> r == Err::<Option<RawVc>, ResolveTypeError>(
                ResolveTypeError::TaskError(
                    old(tt).tasks@[self->TaskOutput_0 as int].error->Some_0,
                ),
            ),
        decreases fuel,
    {
        let ghost pre = *tt;
        let ghost pure_walk = pre.current_task is None && (pre.chase(self, fuel as nat)
            matches Some(cc) && (pre.cell_content(cc->TaskCell_0 as int, cc->TaskCell_1 as int)
            is Some || (pre.tasks@[cc->TaskCell_0 as int].state is Done
            || pre.tasks@[cc->TaskCell_0 as int].state is Dormant)));
        let ghost firsterr = fuel > 0 && (self matches RawVc::TaskOutput(fu) && (
        pre.tasks@[fu as int].state is Done && pre.tasks@[fu as int].error is Some));
        tt.notify_scheduled_tasks();
        let mut current: RawVc = self;
        let mut remaining: u64 = fuel;
        loop
            invariant
                pre == *old(tt),
                tt.wf(),
                tt.valid_handle(current),
                remaining <= fuel,
                same_keys(pre, *tt),
                versions_monotone(pre, *tt),
                executions_monotone(pre, *tt),
                tt.current_task == pre.current_task,
                pure_walk == (pre.current_task is None && (pre.chase(self, fuel as nat)
                    matches Some(cc) && (pre.cell_content(
                    cc->TaskCell_0 as int,
                    cc->TaskCell_1 as int,
                ) is Some || (pre.tasks@[cc->TaskCell_0 as int].state is Done
                    || pre.tasks@[cc->TaskCell_0 as int].state is Dormant)))),
                firsterr == (fuel > 0 && (self matches RawVc::TaskOutput(fu) && (
                pre.tasks@[fu as int].state is Done && pre.tasks@[fu as int].error is Some))),
                firsterr ==> (*tt == pre && current == self && remaining == fuel),
                pure_walk ==> (*tt == pre && pre.chase(current, remaining as nat) == pre.chase(
                    self,
                    fuel as nat,
                )),
                (self matches RawVc::TaskCell(ct, ci) && (pre.cell_content(ct as int, ci as int)
                    is Some || pre.tasks@[ct as int].state is Done || pre.tasks@[ct as int].state
                    is Dormant)) ==> (*tt == pre && current == self),
            decreases remaining,
        {
            proof {
                if pure_walk {
                    assert(pre.chase(current, remaining as nat) is Some);
                    if current is TaskOutput {
                        let u0 = current->TaskOutput_0;
                        assert(pre.hop(current) is Some);
                        assert(pre.tasks@[u0 as int].state is Done);
                        assert(pre.tasks@[u0 as int].error is None);
                        assert(remaining as nat > 0);
                    }
                }
            }
            match current {
                RawVc::TaskOutput(u) => {
                    if remaining == 0 {
                        return Result::Err(ResolveTypeError::ReadError(
                            String::from_str("ran out of scheduling budget"),
                        ));
                    }
                    match tt.try_read_task_output(u, false) {
                        TryRead::Ready(h) => {
                            proof {
                                assert(tt.task_wf(u as int));
                                if pure_walk {
                                    assert(pre.hop(current) == Some(h));
                                    assert(pre.chase(current, remaining as nat) == pre.chase(
                                        h,
                                        (remaining - 1) as nat,
                                    ));
                                }
                            }
                            match tt.current_task {
                                Option::Some(reader) => {
                                    let v = tt.slot_version_exec(RawVc::TaskOutput(u));
                                    tt.record_read(reader, RawVc::TaskOutput(u), v);
                                },
                                Option::None => {},
                            }
                            current = h;
                        },
                        TryRead::Pending => {
                            proof {
                                if pure_walk {
                                    assert(false);
                                }
                            }
                            let is_running = match tt.tasks[u].state {
                                TaskState::Running => true,
                                _ => false,
                            };
                            if is_running {
                                return Result::Err(ResolveTypeError::ReadError(
                                    String::from_str("read depends on a task that is executing"),
                                ));
                            }
                            let can_run = match tt.tasks[u].state {
                                TaskState::Scheduled | TaskState::Dirty | TaskState::Dormant
                                => true,
                                _ => false,
                            };
                            if can_run {
                                tt.execute_task(u, remaining - 1);
                            }
                        },
                        TryRead::Failed(e) => {
                            proof {
                                if pure_walk {
                                    assert(false);
                                }
                            }
                            match e {
                                ReadError::TaskError(msg) => {
                                    return Result::Err(ResolveTypeError::TaskError(msg));
                                },
                                _ => {
                                    return Result::Err(ResolveTypeError::ReadError(
                                        read_error_text(&e),
                                    ));
                                },
                            }
                        },
                    }
                    remaining = remaining - 1;
                },
                RawVc::TaskCell(task, index) => {
                    proof {
                        if pure_walk {
                            assert(pre.chase(current, remaining as nat) == Some(current));
                            assert(current == pre.chase(self, fuel as nat)->Some_0);
                        }
                    }
                    match tt.try_read_task_cell(task, index) {
                        TryRead::Ready(content) => {
                            match tt.current_task {
                                Option::Some(reader) => {
                                    let v = tt.slot_version_exec(RawVc::TaskCell(task, index));
                                    tt.record_read(reader, RawVc::TaskCell(task, index), v);
                                },
                                Option::None => {},
                            }
                            match content.0 {
                                Some(cell_value_type) => {
                                    let known = cell_value_type < tt.registry.value_types.len();
                                    if known && tt.registry.get_value_type(
                                        cell_value_type,
                                    ).has_trait(trait_type) {
                                        return Result::Ok(Some(RawVc::TaskCell(task, index)));
                                    } else {
                                        return Result::Ok(None);
                                    }
                                },
                                None => {
                                    return Result::Err(ResolveTypeError::UntypedContent);
                                },
                            }
                        },
                        TryRead::Pending => {
                            proof {
                                if pure_walk {
                                    assert(false);
                                }
                            }
                            if remaining == 0 {
                                return Result::Err(ResolveTypeError::ReadError(
                                    String::from_str("ran out of scheduling budget"),
                                ));
                            }
                            let is_running = match tt.tasks[task].state {
                                TaskState::Running => true,
                                _ => false,
                            };
                            if is_running {
                                return Result::Err(ResolveTypeError::ReadError(
                                    String::from_str("read depends on a task that is executing"),
                                ));
                            }
                            let can_run = match tt.tasks[task].state {
                                TaskState::Scheduled | TaskState::Dirty => true,
                                _ => false,
                            };
                            if can_run {
                                tt.execute_task(task, remaining - 1);
                            }
                            remaining = remaining - 1;
                        },
                        TryRead::Failed(_) => {
                            return Result::Err(ResolveTypeError::NoContent);
                        },
                    }
                },
            }
        }
    }
}

/// The words a resolution failure carries for a non-task error.
fn read_error_text(e: &ReadError) -> (r: String)
    ensures
        e matches ReadError::TaskError(m) ==> r@ == m@,
{
    match e {
        ReadError::TaskError(m) => m.clone(),
        ReadError::NoContent => String::from_str("read a cell with no content"),
        ReadError::TypeMismatch => String::from_str("read a cell of an unexpected value type"),
        ReadError::CycleDetected => String::from_str("read depends on a task that is executing"),
        ReadError::FuelExhausted => String::from_str("ran out of scheduling budget"),
    }
}



/// What one step of a mapped read produced.
#[verifier::reject_recursive_types(O)]
pub enum ReadAndMapPoll<O, F: Fn(&SharedReference) -> &O> {
    /// The read settled: the projected result, or the read's failure.
    Ready(Result<RawVcReadAndMapResult<SharedReference, O, F>, ReadError>),
    /// The target is not available yet; run the scheduler and poll again.
    Pending,
}

/// An in-flight read whose result is handed out through a projection.
#[verifier::reject_recursive_types(O)]
pub struct ReadAndMapRawVcFuture<O, F: Fn(&SharedReference) -> &O> {
    inner: ReadRawVcFuture,
    func: Option<F>,
}

impl ReadRawVcFuture {
    /// Attach a projection to run on the read result.
    pub fn map<O, F: Fn(&SharedReference) -> &O>(self, func: F) -> (r: ReadAndMapRawVcFuture<
        O,
        F,
    >)
        ensures
            r.spec_inner() == self,
    {
        ReadAndMapRawVcFuture { inner: self, func: Some(func) }
    }
}

impl<O, F: Fn(&SharedReference) -> &O> ReadAndMapRawVcFuture<O, F> {
    /// The underlying read.
    pub closed spec fn spec_inner(self) -> ReadRawVcFuture {
        self.inner
    }

    /// One cooperative step: poll the underlying read and, once it settles,
    /// wrap the shared payload together with the projection. It settles
    /// exactly when the inner read settles, wraps the payload unchanged,
    /// and passes the inner read's failure through.
    pub fn poll(&mut self, tt: &mut TurboTasks, fuel: u64) -> (r: ReadAndMapPoll<O, F>)
        requires
            old(tt).wf(),
            old(tt).valid_handle(old(self).spec_inner().current),
        ensures
            final(tt).wf(),
            final(tt).valid_handle(final(self).spec_inner().current),
            same_keys(*old(tt), *final(tt)),
            versions_monotone(*old(tt), *final(tt)),
            executions_monotone(*old(tt), *final(tt)),
            final(tt).current_task == old(tt).current_task,
            r matches ReadAndMapPoll::Ready(res) ==> (res matches Ok(m) ==> exists|d: nat|
                d <= fuel && ((#[trigger] old(tt).chase(old(self).spec_inner().current, d))
                    matches Some(c) && (old(tt).cell_content(
                    c->TaskCell_0 as int,
                    c->TaskCell_1 as int,
                ) matches Some(q) && m.spec_inner().0 == q.0 && m.spec_inner().1@ == q.1@))),
            // a Done target's memoized failure passes through unchanged
            (fuel > 0 && (old(self).spec_inner().current matches RawVc::TaskOutput(fu) && (old(
                tt,
            ).tasks@[fu as int].state is Done && old(tt).tasks@[fu as int].error matches Some(m))))
                ==> r == ReadAndMapPoll::<O, F>::Ready(
                Result::Err(
                    ReadError::TaskError(
                        old(
                            tt,
                        ).tasks@[old(self).spec_inner().current->TaskOutput_0 as int].error->Some_0,
                    ),
                ),
            ),
        decreases fuel,
    {
        match self.inner.poll(tt, fuel) {
            ReadPoll::Ready(res) => match res {
                Result::Ok(c) => match self.func.take() {
                    Option::Some(f) => ReadAndMapPoll::Ready(
                        Result::Ok(RawVcReadResult::new(Arc::new(c)).map_read_result(f)),
                    ),
                    Option::None => ReadAndMapPoll::Ready(
                        Result::Err(ReadError::FuelExhausted),
                    ),
                },
                Result::Err(e) => ReadAndMapPoll::Ready(Result::Err(e)),
            },
            ReadPoll::Pending => ReadAndMapPoll::Pending,
        }
    }
}


} // verus!
