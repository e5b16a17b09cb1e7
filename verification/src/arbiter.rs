use vstd::prelude::*;
use crate::eserror::EsError;
use crate::quickjsruntime::QuickJsRuntime;
use crate::quickjsruntime::dup_counts;
use crate::quickjsruntime::free_counts;
use crate::quickjsruntime::gc_trim;
use crate::valueref::HandleSpec;
use crate::valueref::JSValueRef;
use crate::valueref::JsValue;
use crate::valueref::TAG_OBJECT;

verus! {

/// Why a submission or a piece of submitted work failed.
///
/// These are the only failures the queue itself produces: it exposes no
/// cancellation of an enqueued task, and a caller-side wait timeout is the
/// waiting layer's business — the task still executes eventually either way.
#[derive(Debug)]
pub enum EngineError {
    /// The arbiter was shut down, or its owning side terminated: terminal for
    /// this arbiter instance.
    EngineUnavailable,
    /// The submitted work itself reported a domain error; the arbiter keeps
    /// running and later tasks are unaffected.
    TaskFailed(EsError),
}

/// One unit of deferred engine work. The confinement core schedules the
/// engine-side effects; host closures around them are the embedding's
/// business and compose these effects.
#[derive(Clone, Copy, PartialEq, Eq, Structural, Debug)]
pub enum TaskPayload {
    /// Pure host work: touches no engine state.
    NoOp,
    /// Host work that reports a domain error (the model of a payload whose own
    /// logic faults): the fault is caught at the task boundary and never
    /// brings the owning side down.
    Fault,
    /// Ask the engine to run its collector.
    RunGc,
    /// Ask the engine for a fresh reference-counted value; the result comes
    /// back already wrapped in an owning handle.
    AllocValue,
    /// Take one more engine-side reference to a slot (a handle clone routed in
    /// from another thread).
    DupValue(usize),
    /// Give one engine-side reference to a slot back (a handle drop routed in
    /// from another thread).
    ReleaseValue(usize),
}

/// What a finished task delivered to its submitter.
pub enum TaskResult {
    /// The work succeeded; engine-producing work carries its value, already
    /// wrapped in a handle.
    Done(Option<JSValueRef>),
    /// The work failed; the owning side caught it and went on.
    Fail(EngineError),
}

/// Where a submitted task stands.
pub enum TaskState {
    /// Enqueued, not yet run.
    Pending,
    /// Run (or failed by shutdown of the owning side); the result waits for
    /// its submitter.
    Finished(TaskResult),
    /// The result was collected.
    Taken,
}

/// One submitted task, in the arbiter's single queue.
pub struct TaskRecord {
    /// Which submitter enqueued it (a caller-chosen thread tag).
    pub submitter: u64,
    pub payload: TaskPayload,
    pub state: TaskState,
}

/// The ghost image of a task result: what a contract states of the result a
/// task delivers.
pub enum SpecResult {
    Done(Option<HandleSpec>),
    FailUnavailable,
    FailTask(Seq<char>),
}

/// The engine can hand out one more reference to slot `id` of this ledger.
pub open spec fn ledger_can_dup(counts: Seq<u64>, id: int) -> bool {
    &&& 0 <= id < counts.len()
    &&& 1 <= counts[id]
    &&& counts[id] < u64::MAX
}

/// Host code may give one reference to slot `id` of this ledger back; while
/// the context is alive the engine itself keeps one reference to the global
/// object's slot.
pub open spec fn ledger_can_free(counts: Seq<u64>, global: int, id: int) -> bool {
    &&& 0 <= id < counts.len()
    &&& counts[id] > (if id == global {
        1u64
    } else {
        0u64
    })
}

/// The engine-side reference counts after one task's payload ran against a
/// ledger.
pub open spec fn counts_after(counts: Seq<u64>, global: int, p: TaskPayload) -> Seq<u64> {
    match p {
        TaskPayload::NoOp => counts,
        TaskPayload::Fault => counts,
        TaskPayload::RunGc => gc_trim(counts),
        TaskPayload::AllocValue => counts.push(1u64),
        TaskPayload::DupValue(id) => if ledger_can_dup(counts, id as int) {
            dup_counts(counts, id as int)
        } else {
            counts
        },
        TaskPayload::ReleaseValue(id) => if ledger_can_free(counts, global, id as int) {
            free_counts(counts, id as int)
        } else {
            counts
        },
    }
}

/// The result one task's payload delivers when run against a ledger.
pub open spec fn result_of(counts: Seq<u64>, global: int, p: TaskPayload) -> SpecResult {
    match p {
        TaskPayload::NoOp => SpecResult::Done(Option::None),
        TaskPayload::Fault => SpecResult::FailTask("task payload faulted"@),
        TaskPayload::RunGc => SpecResult::Done(Option::None),
        TaskPayload::AllocValue => SpecResult::Done(
            Option::Some(
                HandleSpec {
                    value: JsValue { tag: TAG_OBJECT, payload: counts.len() as usize },
                    owning: true,
                    label: "arbiter::alloc_value"@,
                },
            ),
        ),
        TaskPayload::DupValue(id) => if ledger_can_dup(counts, id as int) {
            SpecResult::Done(Option::None)
        } else {
            SpecResult::FailTask("cannot take a reference: not a live engine allocation"@)
        },
        TaskPayload::ReleaseValue(id) => if ledger_can_free(counts, global, id as int) {
            SpecResult::Done(Option::None)
        } else {
            SpecResult::FailTask("cannot give a reference back: not a live engine allocation"@)
        },
    }
}

/// The ledger after a whole sequence of payloads ran, in order.
pub open spec fn counts_after_all(counts: Seq<u64>, global: int, ps: Seq<TaskPayload>) -> Seq<u64>
    decreases ps.len(),
{
    if ps.len() == 0 {
        counts
    } else {
        counts_after_all(counts_after(counts, global, ps[0]), global, ps.drop_first())
    }
}

/// Unrolls one step of [`counts_after_all`] at the back.
pub proof fn lemma_counts_after_all_step(counts: Seq<u64>, global: int, ps: Seq<TaskPayload>, k: int)
    requires
        0 <= k < ps.len(),
    ensures
        counts_after_all(counts, global, ps.take(k + 1)) == counts_after(
            counts_after_all(counts, global, ps.take(k)),
            global,
            ps[k],
        ),
    decreases k,
{
    if k == 0 {
        assert(ps.take(1)[0] == ps[0]);
        assert(ps.take(1).drop_first() =~= Seq::<TaskPayload>::empty());
        assert(ps.take(0) =~= Seq::<TaskPayload>::empty());
        assert(counts_after_all(counts, global, ps.take(1)) == counts_after_all(
            counts_after(counts, global, ps[0]),
            global,
            ps.take(1).drop_first(),
        ));
        assert(counts_after_all(counts, global, ps.take(0)) == counts);
    } else {
        let c1 = counts_after(counts, global, ps[0]);
        let dropf = ps.drop_first();
        lemma_counts_after_all_step(c1, global, dropf, k - 1);
        assert(ps.take(k + 1)[0] == ps[0]);
        assert(ps.take(k)[0] == ps[0]);
        assert(ps.take(k + 1).drop_first() =~= dropf.take(k));
        assert(ps.take(k).drop_first() =~= dropf.take(k - 1));
        assert(dropf[k - 1] == ps[k]);
        assert(counts_after_all(counts, global, ps.take(k + 1)) == counts_after_all(
            c1,
            global,
            dropf.take(k),
        ));
        assert(counts_after_all(counts, global, ps.take(k)) == counts_after_all(
            c1,
            global,
            dropf.take(k - 1),
        ));
    }
}

/// A delivered handle is exactly what the contract's ghost image describes.
pub open spec fn opt_handle_matches(h: Option<JSValueRef>, s: Option<HandleSpec>) -> bool {
    match h {
        Option::None => s is None,
        Option::Some(v) => {
            &&& s matches Option::Some(hs)
            &&& v.matches_spec(hs)
            &&& v.wf()
        },
    }
}

/// A stored task result is exactly what the contract's ghost image describes.
pub open spec fn result_matches(r: TaskResult, s: SpecResult) -> bool {
    match r {
        TaskResult::Done(ho) => s matches SpecResult::Done(hs) && opt_handle_matches(ho, hs),
        TaskResult::Fail(EngineError::EngineUnavailable) => s is FailUnavailable,
        TaskResult::Fail(EngineError::TaskFailed(e)) => s matches SpecResult::FailTask(m)
            && e.message_spec() == m,
    }
}

/// A task state holds a finished result matching the ghost image.
pub open spec fn task_finished_matching(st: TaskState, s: SpecResult) -> bool {
    st matches TaskState::Finished(r) && result_matches(r, s)
}

/// A task was failed by the owning side going away.
pub open spec fn task_failed_unavailable(st: TaskState) -> bool {
    st matches TaskState::Finished(TaskResult::Fail(EngineError::EngineUnavailable))
}

/// What a synchronous submission returns, given the ghost image of its task's
/// result.
pub open spec fn sync_result_matches(
    r: Result<Option<JSValueRef>, EngineError>,
    s: SpecResult,
) -> bool {
    match s {
        SpecResult::Done(ho) => r matches Ok(h) && opt_handle_matches(h, ho),
        SpecResult::FailUnavailable => r matches Err(EngineError::EngineUnavailable),
        SpecResult::FailTask(m) => r matches Err(EngineError::TaskFailed(e)) && e.message_spec()
            == m,
    }
}

/// The payloads of a task sequence, in order.
pub open spec fn payloads_of(tasks: Seq<TaskRecord>) -> Seq<TaskPayload> {
    tasks.map_values(|t: TaskRecord| t.payload)
}

/// Task `i`, part of the backlog that began at position `done` with ledger
/// `c0` and payloads `bl`, was run in place and now stores exactly the result
/// its payload delivered against the ledger as it stood when its turn came.
pub open spec fn backlog_task_settled(
    tasks_old: Seq<TaskRecord>,
    tasks_new: Seq<TaskRecord>,
    done: int,
    c0: Seq<u64>,
    g: int,
    bl: Seq<TaskPayload>,
    i: int,
) -> bool {
    let j = i - done;
    &&& tasks_new[i].submitter == tasks_old[i].submitter
    &&& tasks_new[i].payload == tasks_old[i].payload
    &&& task_finished_matching(
        tasks_new[i].state,
        result_of(counts_after_all(c0, g, bl.take(j)), g, bl[j]),
    )
}

/// Exactly the tasks at or after position `done` are still pending.
pub open spec fn pending_exactly_after(tasks: Seq<TaskRecord>, done: int) -> bool {
    forall|i: int|
        0 <= i < tasks.len() ==> (((#[trigger] tasks[i]).state is Pending) <==> done <= i)
}

/// The execution log is the identity on positions: the `k`-th task the owning
/// side executed is the `k`-th task ever submitted.
pub open spec fn exec_log_is_submission_order(log: Seq<int>) -> bool {
    forall|k: int| 0 <= k < log.len() ==> #[trigger] log[k] == k
}

/// The engine arbiter: owns the single engine context, runs every task in
/// strict submission order on the owning side, and lets any number of
/// submitters enqueue work and collect results.
///
/// Documented policies: the queue is strict FIFO with no cancellation of an
/// enqueued task; a synchronous submission made by whoever holds the arbiter
/// is detected as owning-side work and runs inline, after the whole backlog
/// drains; shutdown executes the remaining queue to completion before
/// releasing the engine context, while new submissions after shutdown fail
/// with [`EngineError::EngineUnavailable`].
pub struct Arbiter {
    engine: QuickJsRuntime,
    accepting: bool,
    tasks: Vec<TaskRecord>,
    done: usize,
    executed: usize,
    exec_log: Ghost<Seq<int>>,
}

impl Arbiter {
    /// The engine context the arbiter confines.
    pub closed spec fn engine_spec(&self) -> QuickJsRuntime {
        self.engine
    }

    /// Whether new submissions are accepted.
    pub closed spec fn accepting_spec(&self) -> bool {
        self.accepting
    }

    /// Every task ever submitted, in submission order.
    pub closed spec fn tasks_spec(&self) -> Seq<TaskRecord> {
        self.tasks@
    }

    /// How many tasks were dispatched: the queue's already-handled prefix.
    pub closed spec fn done_spec(&self) -> int {
        self.done as int
    }

    /// How many tasks the owning side actually executed.
    pub closed spec fn executed_spec(&self) -> int {
        self.executed as int
    }

    /// The submission positions of the executed tasks, in execution order.
    pub closed spec fn exec_log_spec(&self) -> Seq<int> {
        self.exec_log@
    }

    /// The arbiter's internal invariant.
    pub open spec fn wf(&self) -> bool {
        &&& self.engine_spec().wf()
        &&& 0 <= self.done_spec() <= self.tasks_spec().len()
        &&& 0 <= self.executed_spec() <= self.done_spec()
        &&& self.accepting_spec() ==> self.engine_spec().alive_spec()
        &&& self.done_spec() < self.tasks_spec().len() ==> self.engine_spec().alive_spec()
        &&& pending_exactly_after(self.tasks_spec(), self.done_spec())
        &&& self.executed_spec() == self.exec_log_spec().len()
        &&& exec_log_is_submission_order(self.exec_log_spec())
        &&& self.accepting_spec() ==> self.executed_spec() == self.done_spec()
        &&& self.done_spec() < self.tasks_spec().len() ==> self.executed_spec()
            == self.done_spec()
    }

    /// The payloads still queued, in the order the owning side will run them.
    pub open spec fn backlog_spec(&self) -> Seq<TaskPayload> {
        payloads_of(self.tasks_spec()).skip(self.done_spec())
    }

    /// Creates an arbiter over a fresh engine context.
    pub fn new() -> (r: Arbiter)
        ensures
            r.wf(),
            r.accepting_spec(),
            r.tasks_spec() == Seq::<TaskRecord>::empty(),
            r.done_spec() == 0,
            r.executed_spec() == 0,
            r.exec_log_spec() == Seq::<int>::empty(),
            r.engine_spec().alive_spec(),
            r.engine_spec().counts_spec() == seq![1u64],
            r.engine_spec().global_slot() == 0,
            r.engine_spec().props_spec() == Seq::<(Seq<char>, JsValue)>::empty(),
    {
        Arbiter {
            engine: QuickJsRuntime::new(),
            accepting: true,
            tasks: Vec::new(),
            done: 0,
            executed: 0,
            exec_log: Ghost(Seq::empty()),
        }
    }

    /// Enqueues one task without blocking; the caller can later collect its
    /// result through [`Arbiter::take_result`] under the returned position.
    /// Fails with [`EngineError::EngineUnavailable`], touching nothing, once
    /// the arbiter stopped accepting.
    pub fn submit_async(&mut self, submitter: u64, payload: TaskPayload) -> (r: Result<
        usize,
        EngineError,
    >)
        requires
            old(self).wf(),
        ensures
            final(self).wf(),
            !old(self).accepting_spec() ==> (r matches Err(EngineError::EngineUnavailable))
                && *final(self) == *old(self),
            old(self).accepting_spec() ==> {
                &&& (r matches Ok(id) && id as int == old(self).tasks_spec().len())
                &&& final(self).tasks_spec() == old(self).tasks_spec().push(
                    TaskRecord { submitter, payload, state: TaskState::Pending },
                )
                &&& final(self).done_spec() == old(self).done_spec()
                &&& final(self).executed_spec() == old(self).executed_spec()
                &&& final(self).exec_log_spec() == old(self).exec_log_spec()
                &&& final(self).accepting_spec()
                &&& final(self).engine_spec() == old(self).engine_spec()
            },
    {
        if !self.accepting {
            return Err(EngineError::EngineUnavailable);
        }
        let id = self.tasks.len();
        self.tasks.push(TaskRecord { submitter, payload, state: TaskState::Pending });
        Ok(id)
    }

    /// The owning side's loop step: dispatches the earliest pending task, runs
    /// its payload against the engine, and stores the result (or the caught
    /// failure — a faulting payload never brings the owning side down) for its
    /// submitter. Reports whether there was a task to run.
    pub fn run_next(&mut self) -> (r: bool)
        requires
            old(self).wf(),
        ensures
            final(self).wf(),
            r == (old(self).done_spec() < old(self).tasks_spec().len()),
            !r ==> *final(self) == *old(self),
            r ==> {
                let idx = old(self).done_spec();
                let p = old(self).tasks_spec()[idx].payload;
                let c0 = old(self).engine_spec().counts_spec();
                let g = old(self).engine_spec().global_slot();
                &&& final(self).accepting_spec() == old(self).accepting_spec()
                &&& final(self).done_spec() == idx + 1
                &&& final(self).executed_spec() == old(self).executed_spec() + 1
                &&& final(self).exec_log_spec() == old(self).exec_log_spec().push(idx)
                &&& final(self).tasks_spec().len() == old(self).tasks_spec().len()
                &&& (forall|i: int|
                    0 <= i < old(self).tasks_spec().len() && i != idx
                        ==> final(self).tasks_spec()[i] == old(self).tasks_spec()[i])
                &&& final(self).tasks_spec()[idx].submitter == old(self).tasks_spec()[idx].submitter
                &&& final(self).tasks_spec()[idx].payload == p
                &&& task_finished_matching(final(self).tasks_spec()[idx].state, result_of(c0, g, p))
                &&& final(self).engine_spec().alive_spec() == old(self).engine_spec().alive_spec()
                &&& final(self).engine_spec().global_slot() == g
                &&& final(self).engine_spec().props_spec() == old(self).engine_spec().props_spec()
                &&& final(self).engine_spec().counts_spec() == counts_after(c0, g, p)
            },
    {
        if self.done >= self.tasks.len() {
            return false;
        }
        let idx = self.done;
        let submitter = self.tasks[idx].submitter;
        let payload = self.tasks[idx].payload;
        let result: TaskResult = match payload {
            TaskPayload::NoOp => TaskResult::Done(Option::None),
            TaskPayload::Fault => TaskResult::Fail(
                EngineError::TaskFailed(EsError::new_str("task payload faulted")),
            ),
            TaskPayload::RunGc => {
                self.engine.run_gc();
                TaskResult::Done(Option::None)
            },
            TaskPayload::AllocValue => {
                let v = self.engine.alloc_value();
                TaskResult::Done(Option::Some(JSValueRef::new(v, true, true, "arbiter::alloc_value")))
            },
            TaskPayload::DupValue(id) => {
                if self.engine.dup_value(id) {
                    TaskResult::Done(Option::None)
                } else {
                    TaskResult::Fail(
                        EngineError::TaskFailed(
                            EsError::new_str("cannot take a reference: not a live engine allocation"),
                        ),
                    )
                }
            },
            TaskPayload::ReleaseValue(id) => {
                if self.engine.free_value(id) {
                    TaskResult::Done(Option::None)
                } else {
                    TaskResult::Fail(
                        EngineError::TaskFailed(
                            EsError::new_str(
                                "cannot give a reference back: not a live engine allocation",
                            ),
                        ),
                    )
                }
            },
        };
        vec_set(&mut self.tasks, idx, TaskRecord {
            submitter,
            payload,
            state: TaskState::Finished(result),
        });
        self.done = idx + 1;
        self.executed = self.executed + 1;
        proof {
            self.exec_log@ = self.exec_log@.push(idx as int);
        }
        true
    }
    /// Runs the whole backlog to completion, in submission order.
    fn drain(&mut self)
        requires
            old(self).wf(),
        ensures
            final(self).wf(),
            final(self).tasks_spec().len() == old(self).tasks_spec().len(),
            final(self).done_spec() == old(self).tasks_spec().len(),
            final(self).accepting_spec() == old(self).accepting_spec(),
            final(self).engine_spec().alive_spec() == old(self).engine_spec().alive_spec(),
            final(self).engine_spec().global_slot() == old(self).engine_spec().global_slot(),
            final(self).engine_spec().props_spec() == old(self).engine_spec().props_spec(),
            final(self).engine_spec().counts_spec() == counts_after_all(
                old(self).engine_spec().counts_spec(),
                old(self).engine_spec().global_slot(),
                old(self).backlog_spec(),
            ),
            final(self).executed_spec() == old(self).executed_spec()
                + old(self).backlog_spec().len(),
            forall|i: int|
                0 <= i < old(self).done_spec() ==> final(self).tasks_spec()[i] == old(self).tasks_spec()[i],
            forall|i: int|
                old(self).done_spec() <= i < old(self).tasks_spec().len() ==> {
                    let j = i - old(self).done_spec();
                    &&& (#[trigger] final(self).tasks_spec()[i]).submitter == old(self).tasks_spec()[i].submitter
                    &&& final(self).tasks_spec()[i].payload == old(self).tasks_spec()[i].payload
                    &&& task_finished_matching(
                        final(self).tasks_spec()[i].state,
                        result_of(
                            counts_after_all(
                                old(self).engine_spec().counts_spec(),
                                old(self).engine_spec().global_slot(),
                                old(self).backlog_spec().take(j),
                            ),
                            old(self).engine_spec().global_slot(),
                            old(self).backlog_spec()[j],
                        ),
                    )
                },
    {
        let ghost old_done = old(self).done_spec();
        let ghost c0 = old(self).engine_spec().counts_spec();
        let ghost g = old(self).engine_spec().global_slot();
        let ghost bl = old(self).backlog_spec();
        #[verifier::loop_isolation(false)]
        while self.done < self.tasks.len()
            invariant
                self.wf(),
                self.tasks_spec().len() == old(self).tasks_spec().len(),
                old_done <= self.done_spec() <= self.tasks_spec().len(),
                bl.len() == self.tasks_spec().len() - old_done,
                self.accepting_spec() == old(self).accepting_spec(),
                self.engine_spec().alive_spec() == old(self).engine_spec().alive_spec(),
                self.engine_spec().global_slot() == g,
                self.engine_spec().props_spec() == old(self).engine_spec().props_spec(),
                self.engine_spec().counts_spec() == counts_after_all(
                    c0,
                    g,
                    bl.take(self.done_spec() - old_done),
                ),
                self.executed_spec() == old(self).executed_spec() + (self.done_spec() - old_done),
                forall|i: int|
                    0 <= i < old_done ==> self.tasks_spec()[i] == old(self).tasks_spec()[i],
                forall|i: int|
                    self.done_spec() <= i < self.tasks_spec().len() ==> self.tasks_spec()[i] == old(self).tasks_spec()[i],
                forall|i: int|
                    old_done <= i < self.done_spec() ==> {
                        let j = i - old_done;
                        &&& (#[trigger] self.tasks_spec()[i]).submitter == old(self).tasks_spec()[i].submitter
                        &&& self.tasks_spec()[i].payload == old(self).tasks_spec()[i].payload
                        &&& task_finished_matching(
                            self.tasks_spec()[i].state,
                            result_of(counts_after_all(c0, g, bl.take(j)), g, bl[j]),
                        )
                    },
            decreases self.tasks_spec().len() - self.done_spec(),
        {
            let ghost pre = *self;
            let ghost j = pre.done_spec() - old_done;
            proof {
                assert(pre.tasks_spec()[pre.done_spec()] == old(self).tasks_spec()[
                    pre.done_spec()]);
                assert(0 <= j < bl.len());
                assert(bl == payloads_of(old(self).tasks_spec()).skip(old_done));
                assert(payloads_of(old(self).tasks_spec()).skip(old_done)[j] == payloads_of(
                    old(self).tasks_spec(),
                )[old_done + j]);
                assert(payloads_of(old(self).tasks_spec())[old_done + j] == old(
                    self,
                ).tasks_spec()[old_done + j].payload);
                assert(bl[j] == pre.tasks_spec()[pre.done_spec()].payload);
            }
            let ran = self.run_next();
            proof {
                assert(ran);
                lemma_counts_after_all_step(c0, g, bl, j);
            }
        }
        proof {
            assert(bl.take(self.done_spec() - old_done) =~= bl);
        }
    }

    /// Submits one task and waits for its result.
    ///
    /// Whoever holds the arbiter is its owning side, so the submission is
    /// detected as owning-side work and runs inline — after the whole backlog
    /// drains, keeping strict submission order — rather than deadlocking on a
    /// queue nobody else serves. Fails with
    /// [`EngineError::EngineUnavailable`], touching nothing, once the arbiter
    /// stopped accepting; a fault inside the task itself comes back as
    /// [`EngineError::TaskFailed`] and leaves the arbiter running.
    pub fn submit_sync(&mut self, submitter: u64, payload: TaskPayload) -> (r: Result<
        Option<JSValueRef>,
        EngineError,
    >)
        requires
            old(self).wf(),
        ensures
            final(self).wf(),
            !old(self).accepting_spec() ==> (r matches Err(EngineError::EngineUnavailable))
                && *final(self) == *old(self),
            old(self).accepting_spec() ==> {
                let c0 = old(self).engine_spec().counts_spec();
                let g = old(self).engine_spec().global_slot();
                let bl = old(self).backlog_spec();
                &&& final(self).tasks_spec().len() == old(self).tasks_spec().len() + 1
                &&& final(self).done_spec() == final(self).tasks_spec().len()
                &&& final(self).accepting_spec()
                &&& final(self).engine_spec().alive_spec()
                &&& final(self).engine_spec().global_slot() == g
                &&& final(self).engine_spec().props_spec() == old(self).engine_spec().props_spec()
                &&& final(self).engine_spec().counts_spec() == counts_after_all(
                    c0,
                    g,
                    bl.push(payload),
                )
                &&& sync_result_matches(r, result_of(counts_after_all(c0, g, bl), g, payload))
                &&& final(self).executed_spec() == old(self).executed_spec() + bl.len() + 1
                &&& (forall|i: int|
                    0 <= i < old(self).done_spec() ==> final(self).tasks_spec()[i] == old(self).tasks_spec()[i])
                &&& (forall|i: int| old(self).done_spec() <= i < old(self).tasks_spec().len() ==> backlog_task_settled(old(self).tasks_spec(), final(self).tasks_spec(), old(self).done_spec(), c0, g, bl, i))
                &&& final(self).tasks_spec()[old(self).tasks_spec().len() as int].state is Taken
            },
    {
        let ghost c0 = old(self).engine_spec().counts_spec();
        let ghost g = old(self).engine_spec().global_slot();
        let ghost bl = old(self).backlog_spec();
        let idx = match self.submit_async(submitter, payload) {
            Ok(idx) => idx,
            Err(e) => {
                return Err(e);
            },
        };
        proof {
            assert(payloads_of(self.tasks_spec()) =~= payloads_of(old(self).tasks_spec()).push(
                payload,
            ));
            assert(self.backlog_spec() =~= bl.push(payload));
        }
        let ghost mid = *self;
        self.drain();
        proof {
            assert(mid.backlog_spec().take(idx - mid.done_spec()) =~= bl);
            assert(mid.backlog_spec()[idx - mid.done_spec()] == payload);
        }
        let ghost drained = *self;
        let res = match self.take_result(idx) {
            Option::Some(res) => res,
            Option::None => {
                proof {
                    assert(false);
                }
                return Err(EngineError::EngineUnavailable);
            },
        };
        proof {
            assert forall|i: int|
                old(self).done_spec() <= i < old(self).tasks_spec().len() implies #[trigger]
            backlog_task_settled(
                old(self).tasks_spec(),
                self.tasks_spec(),
                old(self).done_spec(),
                c0,
                g,
                bl,
                i,
            ) by {
                let j = i - old(self).done_spec();
                assert(self.tasks_spec()[i] == drained.tasks_spec()[i]);
                assert(mid.backlog_spec().take(j) =~= bl.take(j));
                assert(mid.backlog_spec()[j] == bl[j]);
                assert(mid.tasks_spec()[i] == old(self).tasks_spec()[i]);
            }
        }
        match res {
            TaskResult::Done(h) => Ok(h),
            TaskResult::Fail(e) => Err(e),
        }
    }

    /// Polls a submitted task: true once the owning side is done with it (its
    /// result is stored or already collected), false while it is still queued
    /// or the position is unknown.
    pub fn poll(&self, task_id: usize) -> (r: bool)
        ensures
            r == ((task_id as int) < self.tasks_spec().len()
                && !(self.tasks_spec()[task_id as int].state is Pending)),
    {
        if task_id >= self.tasks.len() {
            return false;
        }
        match self.tasks[task_id].state {
            TaskState::Pending => false,
            _ => true,
        }
    }

    /// Collects the stored result of a finished task, once. Pending tasks,
    /// already collected results and unknown positions report nothing and
    /// touch nothing.
    pub fn take_result(&mut self, task_id: usize) -> (r: Option<TaskResult>)
        requires
            old(self).wf(),
        ensures
            final(self).wf(),
            final(self).engine_spec() == old(self).engine_spec(),
            final(self).accepting_spec() == old(self).accepting_spec(),
            final(self).done_spec() == old(self).done_spec(),
            final(self).executed_spec() == old(self).executed_spec(),
            final(self).exec_log_spec() == old(self).exec_log_spec(),
            final(self).tasks_spec().len() == old(self).tasks_spec().len(),
            forall|i: int|
                0 <= i < old(self).tasks_spec().len() && i != task_id as int ==> final(self).tasks_spec()[i] == old(self).tasks_spec()[i],
            task_id as int >= old(self).tasks_spec().len() ==> r is None && *final(self) == *old(self),
            (task_id as int) < old(self).tasks_spec().len() ==> {
                let rec = old(self).tasks_spec()[task_id as int];
                match rec.state {
                    TaskState::Finished(res) => {
                        &&& r == Some(res)
                        &&& final(self).tasks_spec()[task_id as int].submitter == rec.submitter
                        &&& final(self).tasks_spec()[task_id as int].payload == rec.payload
                        &&& final(self).tasks_spec()[task_id as int].state is Taken
                    },
                    _ => r is None && final(self).tasks_spec()[task_id as int] == rec,
                }
            },
    {
        if task_id >= self.tasks.len() {
            return None;
        }
        let rec = self.tasks.remove(task_id);
        let (give, keep): (Option<TaskResult>, TaskState) = match rec.state {
            TaskState::Finished(res) => (Some(res), TaskState::Taken),
            other => (None, other),
        };
        self.tasks.insert(
            task_id,
            TaskRecord { submitter: rec.submitter, payload: rec.payload, state: keep },
        );
        proof {
            assert(self.tasks_spec() =~= old(self).tasks_spec().update(
                task_id as int,
                self.tasks_spec()[task_id as int],
            ));
        }
        give
    }

    /// A convenience submission: asks the owning side to run the engine's
    /// collector. Fails with [`EngineError::EngineUnavailable`] once the
    /// arbiter stopped accepting; the collector itself cannot fail.
    pub fn trigger_gc(&mut self, submitter: u64) -> (r: Result<(), EngineError>)
        requires
            old(self).wf(),
        ensures
            final(self).wf(),
            !old(self).accepting_spec() ==> (r matches Err(EngineError::EngineUnavailable))
                && *final(self) == *old(self),
            old(self).accepting_spec() ==> {
                let c0 = old(self).engine_spec().counts_spec();
                let g = old(self).engine_spec().global_slot();
                let bl = old(self).backlog_spec();
                &&& r is Ok
                &&& final(self).accepting_spec()
                &&& final(self).engine_spec().alive_spec()
                &&& final(self).engine_spec().global_slot() == g
                &&& final(self).engine_spec().props_spec() == old(self).engine_spec().props_spec()
                &&& final(self).engine_spec().counts_spec() == counts_after_all(
                    c0,
                    g,
                    bl.push(TaskPayload::RunGc),
                )
                &&& final(self).tasks_spec().len() == old(self).tasks_spec().len() + 1
                &&& final(self).done_spec() == final(self).tasks_spec().len()
            },
    {
        match self.submit_sync(submitter, TaskPayload::RunGc) {
            Ok(_) => Ok(()),
            Err(e) => Err(e),
        }
    }

    /// Routes a handle's final drop through the arbiter, as a handle that
    /// crossed threads requires: the engine-side release runs on the owning
    /// side, in queue order. A non-owning handle is simply discarded and never
    /// mutates any engine-side reference count.
    pub fn release_value_ref(&mut self, value_ref: JSValueRef, submitter: u64) -> (r: Result<
        (),
        EngineError,
    >)
        requires
            old(self).wf(),
        ensures
            final(self).wf(),
            !value_ref.is_owning_spec() ==> r is Ok && *final(self) == *old(self),
            value_ref.is_owning_spec() && !old(self).accepting_spec() ==> (r matches Err(
                EngineError::EngineUnavailable,
            )) && *final(self) == *old(self),
            value_ref.is_owning_spec() && old(self).accepting_spec() ==> {
                let c0 = old(self).engine_spec().counts_spec();
                let g = old(self).engine_spec().global_slot();
                let bl = old(self).backlog_spec();
                let id = value_ref.value_spec().payload as int;
                let c_at = counts_after_all(c0, g, bl);
                &&& final(self).engine_spec().counts_spec() == counts_after_all(
                    c0,
                    g,
                    bl.push(TaskPayload::ReleaseValue(value_ref.value_spec().payload)),
                )
                &&& final(self).accepting_spec()
                &&& final(self).engine_spec().alive_spec()
                &&& final(self).engine_spec().global_slot() == g
                &&& (ledger_can_free(c_at, g, id) ==> r is Ok)
                &&& (!ledger_can_free(c_at, g, id) ==> r matches Err(EngineError::TaskFailed(e)))
            },
    {
        if !value_ref.is_owning() {
            return Ok(());
        }
        let id = value_ref.get_value().payload;
        match self.submit_sync(submitter, TaskPayload::ReleaseValue(id)) {
            Ok(_) => Ok(()),
            Err(e) => Err(e),
        }
    }

    /// Shuts the arbiter down: stops accepting, executes the remaining queue
    /// to completion (the documented drain policy), then releases the engine
    /// context. Terminal: every later submission fails with
    /// [`EngineError::EngineUnavailable`].
    pub fn shutdown(&mut self)
        requires
            old(self).wf(),
        ensures
            final(self).wf(),
            !final(self).accepting_spec(),
            !final(self).engine_spec().alive_spec(),
            final(self).tasks_spec().len() == old(self).tasks_spec().len(),
            final(self).done_spec() == old(self).tasks_spec().len(),
            final(self).engine_spec().global_slot() == old(self).engine_spec().global_slot(),
            final(self).engine_spec().props_spec() == old(self).engine_spec().props_spec(),
            final(self).engine_spec().counts_spec() == counts_after_all(
                old(self).engine_spec().counts_spec(),
                old(self).engine_spec().global_slot(),
                old(self).backlog_spec(),
            ),
            final(self).executed_spec() == old(self).executed_spec()
                + old(self).backlog_spec().len(),
    {
        self.drain();
        self.accepting = false;
        self.engine.destroy();
    }

    /// Records that the owning side terminated unexpectedly: the engine's
    /// state can no longer be trusted, so nothing more executes — every
    /// still-pending task is failed with [`EngineError::EngineUnavailable`]
    /// and the arbiter stops accepting, terminally.
    pub fn mark_unavailable(&mut self)
        requires
            old(self).wf(),
        ensures
            final(self).wf(),
            !final(self).accepting_spec(),
            !final(self).engine_spec().alive_spec(),
            final(self).tasks_spec().len() == old(self).tasks_spec().len(),
            final(self).done_spec() == old(self).tasks_spec().len(),
            final(self).executed_spec() == old(self).executed_spec(),
            final(self).exec_log_spec() == old(self).exec_log_spec(),
            final(self).engine_spec().counts_spec() == old(self).engine_spec().counts_spec(),
            final(self).engine_spec().global_slot() == old(self).engine_spec().global_slot(),
            final(self).engine_spec().props_spec() == old(self).engine_spec().props_spec(),
            forall|i: int|
                0 <= i < old(self).done_spec() ==> final(self).tasks_spec()[i] == old(self).tasks_spec()[i],
            forall|i: int|
                old(self).done_spec() <= i < old(self).tasks_spec().len() ==> {
                    &&& (#[trigger] final(self).tasks_spec()[i]).submitter == old(self).tasks_spec()[i].submitter
                    &&& final(self).tasks_spec()[i].payload == old(self).tasks_spec()[i].payload
                    &&& task_failed_unavailable(final(self).tasks_spec()[i].state)
                },
    {
        let mut i = self.done;
        while i < self.tasks.len()
            invariant
                old(self).wf(),
                self.done_spec() <= i as int <= self.tasks_spec().len(),
                self.tasks_spec().len() == old(self).tasks_spec().len(),
                self.done == old(self).done_spec(),
                self.executed == old(self).executed_spec(),
                self.exec_log@ == old(self).exec_log_spec(),
                self.accepting == old(self).accepting_spec(),
                self.engine_spec() == old(self).engine_spec(),
                forall|k: int|
                    0 <= k < old(self).done_spec() ==> self.tasks_spec()[k] == old(self).tasks_spec()[k],
                forall|k: int|
                    i as int <= k < self.tasks_spec().len() ==> self.tasks_spec()[k] == old(self).tasks_spec()[k],
                forall|k: int|
                    old(self).done_spec() <= k < i as int ==> {
                        &&& (#[trigger] self.tasks_spec()[k]).submitter == old(self).tasks_spec()[k].submitter
                        &&& self.tasks_spec()[k].payload == old(self).tasks_spec()[k].payload
                        &&& task_failed_unavailable(self.tasks_spec()[k].state)
                    },
            decreases self.tasks_spec().len() - i,
        {
            let submitter = self.tasks[i].submitter;
            let payload = self.tasks[i].payload;
            vec_set(&mut self.tasks, i, TaskRecord {
                submitter,
                payload,
                state: TaskState::Finished(TaskResult::Fail(EngineError::EngineUnavailable)),
            });
            i += 1;
        }
        self.done = i;
        self.accepting = false;
        self.engine.destroy();
    }

    pub fn is_accepting(&self) -> (r: bool)
        ensures
            r == self.accepting_spec(),
    {
        self.accepting
    }

    /// How many tasks the owning side has executed so far: the counter the
    /// owning side's loop alone mutates.
    pub fn executed_count(&self) -> (r: usize)
        ensures
            r as int == self.executed_spec(),
    {
        self.executed
    }

    /// How many tasks were ever submitted.
    pub fn task_count(&self) -> (r: usize)
        ensures
            r as int == self.tasks_spec().len(),
    {
        self.tasks.len()
    }

    pub fn engine_is_alive(&self) -> (r: bool)
        ensures
            r == self.engine_spec().alive_spec(),
    {
        self.engine.is_alive()
    }

    /// The engine-side reference count of a slot, read on the owning side; a
    /// released engine reports nothing.
    pub fn engine_ref_count(&self, id: usize) -> (r: u64)
        requires
            self.wf(),
        ensures
            r == if self.engine_spec().alive_spec() && id < self.engine_spec().counts_spec().len() {
                self.engine_spec().counts_spec()[id as int]
            } else {
                0u64
            },
    {
        if self.engine.is_alive() {
            self.engine.ref_count(id)
        } else {
            0
        }
    }

    /// How many allocation slots the engine currently keeps: the model's
    /// measure of engine-side memory usage.
    pub fn engine_allocated_slots(&self) -> (r: usize)
        ensures
            r as int == self.engine_spec().counts_spec().len(),
    {
        self.engine.allocated_slots()
    }
}

/// FIFO law: the owning side's observed execution order is the submission
/// order. The execution log lists the submission position of every executed
/// task in the order they ran; the `k`-th task executed is exactly the `k`-th
/// task ever submitted, whatever interleaving of submitters enqueued them —
/// so the total execution order is in particular consistent with each
/// submitter's own submission order, and no two tasks ever run concurrently
/// or reordered.
pub proof fn lemma_fifo_execution_order(a: &Arbiter, k1: int, k2: int)
    requires
        a.wf(),
        0 <= k1 <= k2 < a.exec_log_spec().len(),
    ensures
        a.exec_log_spec()[k1] == k1,
        a.exec_log_spec()[k2] == k2,
        k1 < k2 ==> a.exec_log_spec()[k1] < a.exec_log_spec()[k2],
{
}

/// Writes one queue slot.
fn vec_set<T>(v: &mut Vec<T>, i: usize, x: T)
    requires
        i < old(v).len(),
    ensures
        final(v)@ == old(v)@.update(i as int, x),
{
    let slot = vstd::std_specs::vec::vec_index_mut(v, i);
    *slot = x;
}

} // verus!
