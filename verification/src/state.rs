//! The state of the coordinator as a mathematical value, what makes it well
//! formed, and how loads are accounted for.

use crate::queue::ordered;
use crate::registry::{
    distinct_workers, is_registered, lemma_position_of_worker, loads_within_limits,
    position_of_worker, WorkerRecordView,
};
use crate::task::{Task, TaskResult, TaskResultView, TaskView};
use crate::types::{TaskId, TaskStatus, Timestamp, WorkerId};
use vstd::prelude::*;

verus! {

/// A task that has been given to a worker and is not finished yet.
#[derive(Debug, PartialEq, Eq)]
pub struct InFlightEntry {
    pub task: Task,
    pub worker_id: WorkerId,
    pub assigned_at: Timestamp,
    /// When the task was asked to be cancelled, if it was.
    pub cancel_requested_at: Option<Timestamp>,
}

/// The mathematical value of an [`InFlightEntry`].
pub struct InFlightView {
    pub task: TaskView,
    pub worker_id: WorkerId,
    pub assigned_at: Timestamp,
    pub cancel_requested_at: Option<Timestamp>,
}

impl View for InFlightEntry {
    type V = InFlightView;

    open spec fn view(&self) -> InFlightView {
        InFlightView {
            task: self.task@,
            worker_id: self.worker_id,
            assigned_at: self.assigned_at,
            cancel_requested_at: self.cancel_requested_at,
        }
    }
}

/// Why a task failed for good.
#[derive(Debug, Clone, Copy, PartialEq, Eq, Structural)]
pub enum FailureKind {
    /// A worker ran the task and failed, and no retry is left.
    Execution,
    /// No registered worker could have run the task before its deadline.
    NoWorker,
    /// Workers could have run the task, but none was free before its deadline.
    DeadlineExceeded,
}

impl FailureKind {
    /// Whether a failure of this kind is final whatever retries are left.
    pub open spec fn final_at_once(self) -> bool {
        self != FailureKind::Execution
    }
}

/// How a task ended.
#[derive(Debug, PartialEq, Eq)]
pub struct TaskOutcome {
    /// The final result, as it is handed to those who wait for the task.
    pub result: TaskResult,
    /// How often the task had been retried when it ended.
    pub retry_count: u32,
    pub max_retries: u32,
    /// The kind of failure, for a task that failed.
    pub failure: Option<FailureKind>,
}

/// The mathematical value of a [`TaskOutcome`].
pub struct TaskOutcomeView {
    pub result: TaskResultView,
    pub retry_count: u32,
    pub max_retries: u32,
    pub failure: Option<FailureKind>,
}

impl TaskOutcomeView {
    /// An outcome is well formed if its status is terminal, its retries are
    /// within the limit, and, where it is a failure, either every retry was
    /// used or the failure is of a kind that is final at once.
    pub open spec fn wf(self) -> bool {
        &&& self.result.status.terminal()
        &&& self.retry_count <= self.max_retries
        &&& self.result.status == TaskStatus::Failed ==> {
            &&& self.failure.is_some()
            &&& self.retry_count == self.max_retries || self.failure.unwrap().final_at_once()
        }
    }
}

impl View for TaskOutcome {
    type V = TaskOutcomeView;

    open spec fn view(&self) -> TaskOutcomeView {
        TaskOutcomeView {
            result: self.result@,
            retry_count: self.retry_count,
            max_retries: self.max_retries,
            failure: self.failure,
        }
    }
}

impl Clone for TaskOutcome {
    fn clone(&self) -> (copy: Self)
        ensures
            copy@ == self@,
    {
        TaskOutcome {
            result: self.result.clone(),
            retry_count: self.retry_count,
            max_retries: self.max_retries,
            failure: self.failure,
        }
    }
}

/// The mathematical value of a list of in-flight entries.
pub open spec fn in_flight_views(entries: Seq<InFlightEntry>) -> Seq<InFlightView> {
    entries.map_values(|e: InFlightEntry| e@)
}

/// The mathematical value of a list of outcomes.
pub open spec fn outcome_views(outcomes: Seq<TaskOutcome>) -> Seq<TaskOutcomeView> {
    outcomes.map_values(|o: TaskOutcome| o@)
}

/// Number of in-flight tasks that the worker with the given identifier holds.
pub open spec fn load_of(in_flight: Seq<InFlightView>, worker: WorkerId) -> nat
    decreases in_flight.len(),
{
    if in_flight.len() == 0 {
        0
    } else {
        load_of(in_flight.drop_last(), worker) + if in_flight.last().worker_id == worker {
            1nat
        } else {
            0nat
        }
    }
}

/// The sum of the loads on record.
pub open spec fn total_load(workers: Seq<WorkerRecordView>) -> nat
    decreases workers.len(),
{
    if workers.len() == 0 {
        0
    } else {
        total_load(workers.drop_last()) + workers.last().current_load as nat
    }
}

/// The sum, over the workers, of the number of in-flight tasks they hold.
pub open spec fn total_held(workers: Seq<WorkerRecordView>, in_flight: Seq<InFlightView>) -> nat
    decreases workers.len(),
{
    if workers.len() == 0 {
        0
    } else {
        total_held(workers.drop_last(), in_flight) + load_of(in_flight, workers.last().id)
    }
}

/// Position of the first pending task with the given identifier, or the
/// number of tasks where there is none.
pub open spec fn position_of_pending(tasks: Seq<TaskView>, id: TaskId) -> int
    decreases tasks.len(),
{
    if tasks.len() == 0 {
        0
    } else if tasks[0].id == id {
        0
    } else {
        1 + position_of_pending(tasks.drop_first(), id)
    }
}

/// Position of the first in-flight entry for the given task, or the number
/// of entries where there is none.
pub open spec fn position_in_flight(in_flight: Seq<InFlightView>, id: TaskId) -> int
    decreases in_flight.len(),
{
    if in_flight.len() == 0 {
        0
    } else if in_flight[0].task.id == id {
        0
    } else {
        1 + position_in_flight(in_flight.drop_first(), id)
    }
}

/// Position of the first outcome of the given task, or the number of
/// outcomes where there is none.
pub open spec fn position_of_outcome(finished: Seq<TaskOutcomeView>, id: TaskId) -> int
    decreases finished.len(),
{
    if finished.len() == 0 {
        0
    } else if finished[0].result.task_id == id {
        0
    } else {
        1 + position_of_outcome(finished.drop_first(), id)
    }
}

/// `position_of_pending` finds the first task with the identifier, and finds
/// none only if there is none.
pub proof fn lemma_position_of_pending(tasks: Seq<TaskView>, id: TaskId)
    ensures
        0 <= position_of_pending(tasks, id) <= tasks.len(),
        position_of_pending(tasks, id) < tasks.len() ==> tasks[position_of_pending(tasks, id)].id
            == id,
        forall|i: int| 0 <= i < position_of_pending(tasks, id) ==> (#[trigger] tasks[i]).id != id,
    decreases tasks.len(),
{
    if tasks.len() > 0 && tasks[0].id != id {
        let rest = tasks.drop_first();
        lemma_position_of_pending(rest, id);
        assert forall|i: int| 0 <= i < position_of_pending(tasks, id) implies (
        #[trigger] tasks[i]).id != id by {
            if i > 0 {
                assert(tasks[i] == rest[i - 1]);
            }
        }
    }
}

/// `position_in_flight` finds the first entry whose task has the identifier,
/// and finds none only if there is none.
pub proof fn lemma_position_in_flight(in_flight: Seq<InFlightView>, id: TaskId)
    ensures
        0 <= position_in_flight(in_flight, id) <= in_flight.len(),
        position_in_flight(in_flight, id) < in_flight.len() ==> in_flight[position_in_flight(
            in_flight,
            id,
        )].task.id == id,
        forall|i: int|
            0 <= i < position_in_flight(in_flight, id) ==> (#[trigger] in_flight[i]).task.id
                != id,
    decreases in_flight.len(),
{
    if in_flight.len() > 0 && in_flight[0].task.id != id {
        let rest = in_flight.drop_first();
        lemma_position_in_flight(rest, id);
        assert forall|i: int| 0 <= i < position_in_flight(in_flight, id) implies (
        #[trigger] in_flight[i]).task.id != id by {
            if i > 0 {
                assert(in_flight[i] == rest[i - 1]);
            }
        }
    }
}

/// `position_of_outcome` finds the first outcome of the task with the
/// identifier, and finds none only if there is none.
pub proof fn lemma_position_of_outcome(finished: Seq<TaskOutcomeView>, id: TaskId)
    ensures
        0 <= position_of_outcome(finished, id) <= finished.len(),
        position_of_outcome(finished, id) < finished.len() ==> finished[position_of_outcome(
            finished,
            id,
        )].result.task_id == id,
        forall|i: int|
            0 <= i < position_of_outcome(finished, id) ==> (
            #[trigger] finished[i]).result.task_id != id,
    decreases finished.len(),
{
    if finished.len() > 0 && finished[0].result.task_id != id {
        let rest = finished.drop_first();
        lemma_position_of_outcome(rest, id);
        assert forall|i: int| 0 <= i < position_of_outcome(finished, id) implies (
        #[trigger] finished[i]).result.task_id != id by {
            if i > 0 {
                assert(finished[i] == rest[i - 1]);
            }
        }
    }
}

/// The state of the coordinator.
pub struct CoordinatorView {
    /// The registered workers, in the order of registration.
    pub workers: Seq<WorkerRecordView>,
    /// The tasks that wait for a worker, in the order in which they are tried.
    pub pending: Seq<TaskView>,
    /// The tasks that workers hold, in the order of assignment.
    pub in_flight: Seq<InFlightView>,
    /// The outcomes of the tasks that have ended, in the order of their ending.
    pub finished: Seq<TaskOutcomeView>,
    /// Whether new tasks are accepted.
    pub accepting: bool,
    /// How many tasks have ended.
    pub tasks_processed: u64,
    /// How many tasks have ended in failure.
    pub tasks_failed: u64,
    /// The time that workers have reported for the tasks that have ended, in
    /// milliseconds.
    pub processing_time_ms: u64,
}

impl CoordinatorView {
    /// The state of a coordinator that has just been made.
    pub open spec fn initial() -> Self {
        CoordinatorView {
            workers: Seq::empty(),
            pending: Seq::empty(),
            in_flight: Seq::empty(),
            finished: Seq::empty(),
            accepting: true,
            tasks_processed: 0,
            tasks_failed: 0,
            processing_time_ms: 0,
        }
    }

    /// Whether a task with the identifier waits for a worker.
    pub open spec fn is_pending(self, id: TaskId) -> bool {
        position_of_pending(self.pending, id) < self.pending.len()
    }

    /// Whether a task with the identifier is held by a worker.
    pub open spec fn is_in_flight(self, id: TaskId) -> bool {
        position_in_flight(self.in_flight, id) < self.in_flight.len()
    }

    /// Whether the outcome of a task with the identifier is on record.
    pub open spec fn is_finished(self, id: TaskId) -> bool {
        position_of_outcome(self.finished, id) < self.finished.len()
    }

    /// The coordinator holds a task with this identifier, in whatever state.
    pub open spec fn knows(self, id: TaskId) -> bool {
        self.is_pending(id) || self.is_in_flight(id) || self.is_finished(id)
    }

    /// The status of the task with the given identifier, if the coordinator
    /// holds such a task.
    pub open spec fn status_of(self, id: TaskId) -> Option<TaskStatus> {
        if self.is_pending(id) {
            Some(self.pending[position_of_pending(self.pending, id)].status)
        } else if self.is_in_flight(id) {
            Some(self.in_flight[position_in_flight(self.in_flight, id)].task.status)
        } else if self.is_finished(id) {
            Some(self.finished[position_of_outcome(self.finished, id)].result.status)
        } else {
            None
        }
    }

    /// Every pending task has the status `Pending` and retries within its limit.
    pub open spec fn pending_wf(self) -> bool {
        forall|i: int|
            0 <= i < self.pending.len() ==> {
                &&& (#[trigger] self.pending[i]).status == TaskStatus::Pending
                &&& self.pending[i].retry_count <= self.pending[i].max_retries
            }
    }

    /// Every in-flight task is assigned or processing, has retries within its
    /// limit, and is held by a registered worker.
    pub open spec fn in_flight_wf(self) -> bool {
        forall|i: int|
            0 <= i < self.in_flight.len() ==> {
                &&& (#[trigger] self.in_flight[i]).task.status == TaskStatus::Assigned
                    || self.in_flight[i].task.status == TaskStatus::Processing
                &&& self.in_flight[i].task.retry_count <= self.in_flight[i].task.max_retries
                &&& is_registered(self.workers, self.in_flight[i].worker_id)
            }
    }

    /// Every outcome is well formed.
    pub open spec fn finished_wf(self) -> bool {
        forall|i: int| 0 <= i < self.finished.len() ==> (#[trigger] self.finished[i]).wf()
    }

    /// No identifier belongs to two tasks.
    pub open spec fn ids_distinct(self) -> bool {
        &&& forall|i: int, j: int|
            0 <= i < j < self.pending.len() ==> (#[trigger] self.pending[i]).id != (
            #[trigger] self.pending[j]).id
        &&& forall|i: int, j: int|
            0 <= i < j < self.in_flight.len() ==> (#[trigger] self.in_flight[i]).task.id != (
            #[trigger] self.in_flight[j]).task.id
        &&& forall|i: int, j: int|
            0 <= i < j < self.finished.len() ==> (#[trigger] self.finished[i]).result.task_id != (
            #[trigger] self.finished[j]).result.task_id
        &&& forall|i: int, j: int|
            0 <= i < self.pending.len() && 0 <= j < self.in_flight.len() ==> (
            #[trigger] self.pending[i]).id != (#[trigger] self.in_flight[j]).task.id
        &&& forall|i: int, j: int|
            0 <= i < self.pending.len() && 0 <= j < self.finished.len() ==> (
            #[trigger] self.pending[i]).id != (#[trigger] self.finished[j]).result.task_id
        &&& forall|i: int, j: int|
            0 <= i < self.in_flight.len() && 0 <= j < self.finished.len() ==> (
            #[trigger] self.in_flight[i]).task.id != (#[trigger] self.finished[j]).result.task_id
    }

    /// The state is well formed.
    pub open spec fn wf(self) -> bool {
        &&& distinct_workers(self.workers)
        &&& loads_within_limits(self.workers)
        &&& ordered(self.pending)
        &&& self.pending_wf()
        &&& self.in_flight_wf()
        &&& self.finished_wf()
        &&& self.ids_distinct()
    }

    /// The load on record of every worker is the number of in-flight tasks
    /// that the worker holds.
    pub open spec fn balanced(self) -> bool {
        forall|i: int|
            0 <= i < self.workers.len() ==> (#[trigger] self.workers[i]).current_load == load_of(
                self.in_flight,
                self.workers[i].id,
            )
    }
}

/// One more in-flight task adds one to the load of the worker that holds it,
/// and nothing to the load of any other.
pub proof fn lemma_load_of_push(in_flight: Seq<InFlightView>, entry: InFlightView, worker: WorkerId)
    ensures
        load_of(in_flight.push(entry), worker) == load_of(in_flight, worker) + if entry.worker_id
            == worker {
            1nat
        } else {
            0nat
        },
{
    assert(in_flight.push(entry).drop_last() =~= in_flight);
}

/// Taking an in-flight task away takes one from the load of the worker that
/// held it, and nothing from the load of any other.
pub proof fn lemma_load_of_remove(in_flight: Seq<InFlightView>, at: int, worker: WorkerId)
    requires
        0 <= at < in_flight.len(),
    ensures
        load_of(in_flight, worker) == load_of(in_flight.remove(at), worker) + if in_flight[at].worker_id
            == worker {
            1nat
        } else {
            0nat
        },
    decreases in_flight.len(),
{
    if at == in_flight.len() - 1 {
        assert(in_flight.remove(at) =~= in_flight.drop_last());
    } else {
        lemma_load_of_remove(in_flight.drop_last(), at, worker);
        assert(in_flight.remove(at).drop_last() =~= in_flight.drop_last().remove(at));
        assert(in_flight.remove(at).last() == in_flight.last());
    }
}

/// Changing an in-flight entry without changing its worker leaves every load
/// as it was.
pub proof fn lemma_load_of_update(
    in_flight: Seq<InFlightView>,
    at: int,
    entry: InFlightView,
    worker: WorkerId,
)
    requires
        0 <= at < in_flight.len(),
        entry.worker_id == in_flight[at].worker_id,
    ensures
        load_of(in_flight.update(at, entry), worker) == load_of(in_flight, worker),
    decreases in_flight.len(),
{
    if at == in_flight.len() - 1 {
        assert(in_flight.update(at, entry).drop_last() =~= in_flight.drop_last());
    } else {
        lemma_load_of_update(in_flight.drop_last(), at, entry, worker);
        assert(in_flight.update(at, entry).drop_last() =~= in_flight.drop_last().update(
            at,
            entry,
        ));
    }
}

/// A worker that holds no in-flight task has no load to account for.
pub proof fn lemma_load_of_absent(in_flight: Seq<InFlightView>, worker: WorkerId)
    requires
        forall|i: int| 0 <= i < in_flight.len() ==> (#[trigger] in_flight[i]).worker_id != worker,
    ensures
        load_of(in_flight, worker) == 0,
    decreases in_flight.len(),
{
    if in_flight.len() > 0 {
        assert(in_flight.last() == in_flight[in_flight.len() - 1]);
        assert forall|i: int| 0 <= i < in_flight.drop_last().len() implies (
        #[trigger] in_flight.drop_last()[i]).worker_id != worker by {
            assert(in_flight.drop_last()[i] == in_flight[i]);
        }
        lemma_load_of_absent(in_flight.drop_last(), worker);
    }
}

/// A worker that holds a task has a load of at least one.
pub proof fn lemma_load_of_present(in_flight: Seq<InFlightView>, at: int)
    requires
        0 <= at < in_flight.len(),
    ensures
        load_of(in_flight, in_flight[at].worker_id) >= 1,
{
    lemma_load_of_remove(in_flight, at, in_flight[at].worker_id);
}

/// Among workers with distinct identifiers, one more task held by the worker
/// with the identifier `worker` adds as much to the total as there are
/// workers with that identifier: one if it is registered, none if not.
proof fn lemma_total_held_push(
    workers: Seq<WorkerRecordView>,
    in_flight: Seq<InFlightView>,
    entry: InFlightView,
)
    requires
        distinct_workers(workers),
    ensures
        total_held(workers, in_flight.push(entry)) == total_held(workers, in_flight) + if is_registered(
            workers,
            entry.worker_id,
        ) {
            1nat
        } else {
            0nat
        },
    decreases workers.len(),
{
    lemma_position_of_worker(workers, entry.worker_id);
    if workers.len() > 0 {
        let fewer = workers.drop_last();
        assert forall|i: int, j: int| 0 <= i < j < fewer.len() implies (#[trigger] fewer[i]).id != (
        #[trigger] fewer[j]).id by {
            assert(fewer[i] == workers[i] && fewer[j] == workers[j]);
        }
        lemma_total_held_push(fewer, in_flight, entry);
        lemma_load_of_push(in_flight, entry, workers.last().id);
        lemma_position_of_worker(fewer, entry.worker_id);
        let found = position_of_worker(workers, entry.worker_id);
        let found_fewer = position_of_worker(fewer, entry.worker_id);
        if workers.last().id == entry.worker_id {
            if found_fewer < fewer.len() {
                assert(fewer[found_fewer] == workers[found_fewer]);
                assert(workers[found_fewer].id != workers[workers.len() - 1].id);
            }
            if found >= workers.len() {
                assert(workers[workers.len() - 1].id != entry.worker_id);
            }
        } else {
            if found_fewer < fewer.len() {
                assert(fewer[found_fewer] == workers[found_fewer]);
                if found >= workers.len() {
                    assert(workers[found_fewer].id != entry.worker_id);
                }
            } else if found < workers.len() {
                if found < fewer.len() {
                    assert(fewer[found] == workers[found]);
                    assert(fewer[found].id != entry.worker_id);
                }
            }
        }
    }
}

/// Without in-flight tasks no worker holds any.
proof fn lemma_total_held_empty(workers: Seq<WorkerRecordView>)
    ensures
        total_held(workers, Seq::<InFlightView>::empty()) == 0,
    decreases workers.len(),
{
    if workers.len() > 0 {
        lemma_total_held_empty(workers.drop_last());
    }
}

/// Where every in-flight task is held by a registered worker, the tasks held
/// by the workers are all the in-flight tasks.
proof fn lemma_total_held(workers: Seq<WorkerRecordView>, in_flight: Seq<InFlightView>)
    requires
        distinct_workers(workers),
        forall|i: int|
            0 <= i < in_flight.len() ==> is_registered(workers, (#[trigger] in_flight[i]).worker_id),
    ensures
        total_held(workers, in_flight) == in_flight.len(),
    decreases in_flight.len(),
{
    if in_flight.len() == 0 {
        assert(in_flight =~= Seq::<InFlightView>::empty());
        lemma_total_held_empty(workers);
    } else {
        let fewer = in_flight.drop_last();
        assert forall|i: int| 0 <= i < fewer.len() implies is_registered(
            workers,
            (#[trigger] fewer[i]).worker_id,
        ) by {
            assert(fewer[i] == in_flight[i]);
        }
        lemma_total_held(workers, fewer);
        lemma_total_held_push(workers, fewer, in_flight.last());
        assert(fewer.push(in_flight.last()) =~= in_flight);
        assert(in_flight.last() == in_flight[in_flight.len() - 1]);
    }
}

/// Where each load on record is the number of tasks held, the sums agree.
proof fn lemma_total_load_is_held(workers: Seq<WorkerRecordView>, in_flight: Seq<InFlightView>)
    requires
        forall|i: int|
            0 <= i < workers.len() ==> (#[trigger] workers[i]).current_load == load_of(
                in_flight,
                workers[i].id,
            ),
    ensures
        total_load(workers) == total_held(workers, in_flight),
    decreases workers.len(),
{
    if workers.len() > 0 {
        let fewer = workers.drop_last();
        assert forall|i: int| 0 <= i < fewer.len() implies (#[trigger] fewer[i]).current_load
            == load_of(in_flight, fewer[i].id) by {
            assert(fewer[i] == workers[i]);
        }
        lemma_total_load_is_held(fewer, in_flight);
        assert(workers.last() == workers[workers.len() - 1]);
    }
}

/// In a well-formed state whose loads are accounted for, the loads of all
/// workers sum to the number of in-flight tasks.
pub proof fn lemma_loads_sum_to_in_flight(state: CoordinatorView)
    requires
        state.wf(),
        state.balanced(),
    ensures
        total_load(state.workers) == state.in_flight.len(),
{
    lemma_total_load_is_held(state.workers, state.in_flight);
    lemma_total_held(state.workers, state.in_flight);
}

} // verus!
