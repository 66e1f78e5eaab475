//! The elementary changes of the coordinator's state, and the proofs that
//! each of them keeps the state well formed and the loads accounted for.

use crate::queue::{
    enqueued, lemma_enqueued_ordered, lemma_insertion_point, lemma_removal_ordered,
    insertion_point,
};
use crate::registry::{
    distinct_workers, is_registered, lemma_position_of_worker, position_of_worker,
    WorkerRecordView,
};
use crate::state::{
    lemma_load_of_present, lemma_load_of_push, lemma_load_of_remove, lemma_position_in_flight,
    lemma_position_of_outcome, lemma_position_of_pending, load_of, position_in_flight,
    position_of_outcome, position_of_pending, CoordinatorView, InFlightView, TaskOutcomeView,
};
use crate::task::TaskView;
use crate::types::{TaskId, TaskStatus, WorkerId};
use vstd::prelude::*;

verus! {

/// The task as it waits for a worker.
pub open spec fn as_pending(task: TaskView) -> TaskView {
    TaskView { status: TaskStatus::Pending, ..task }
}

/// The task as it is handed to a worker.
pub open spec fn as_assigned(task: TaskView) -> TaskView {
    TaskView { status: TaskStatus::Assigned, ..task }
}

/// The task as it waits for its next attempt.
pub open spec fn as_retry(task: TaskView) -> TaskView {
    TaskView { status: TaskStatus::Pending, retry_count: (task.retry_count + 1) as u32, ..task }
}

/// The sum of two counters, or the largest number a counter can hold where
/// the sum is larger.
pub open spec fn saturating_sum(a: u64, b: u64) -> u64 {
    if a + b > u64::MAX {
        u64::MAX
    } else {
        (a + b) as u64
    }
}

/// Workers whose identifiers agree position for position are found at the
/// same positions.
pub proof fn lemma_same_ids(a: Seq<WorkerRecordView>, b: Seq<WorkerRecordView>, id: WorkerId)
    requires
        a.len() == b.len(),
        forall|i: int| 0 <= i < a.len() ==> (#[trigger] a[i]).id == b[i].id,
    ensures
        position_of_worker(a, id) == position_of_worker(b, id),
    decreases a.len(),
{
    if a.len() > 0 {
        assert(a[0].id == b[0].id);
        if a[0].id != id {
            assert forall|i: int| 0 <= i < a.drop_first().len() implies (
            #[trigger] a.drop_first()[i]).id == b.drop_first()[i].id by {
                assert(a.drop_first()[i] == a[i + 1]);
                assert(b.drop_first()[i] == b[i + 1]);
            }
            lemma_same_ids(a.drop_first(), b.drop_first(), id);
        }
    }
}

/// A task that the state does not know has an identifier that no task of the
/// state has.
pub proof fn lemma_unknown(state: CoordinatorView, id: TaskId)
    requires
        !state.knows(id),
    ensures
        forall|i: int| 0 <= i < state.pending.len() ==> (#[trigger] state.pending[i]).id != id,
        forall|i: int|
            0 <= i < state.in_flight.len() ==> (#[trigger] state.in_flight[i]).task.id != id,
        forall|i: int|
            0 <= i < state.finished.len() ==> (#[trigger] state.finished[i]).result.task_id
                != id,
{
    lemma_position_of_pending(state.pending, id);
    lemma_position_in_flight(state.in_flight, id);
    lemma_position_of_outcome(state.finished, id);
}

/// In a well-formed state a task is in one place only.
pub proof fn lemma_one_place(state: CoordinatorView, id: TaskId)
    requires
        state.wf(),
    ensures
        !(state.is_pending(id) && state.is_in_flight(id)),
        !(state.is_pending(id) && state.is_finished(id)),
        !(state.is_in_flight(id) && state.is_finished(id)),
{
    lemma_position_of_pending(state.pending, id);
    lemma_position_in_flight(state.in_flight, id);
    lemma_position_of_outcome(state.finished, id);
    let p = position_of_pending(state.pending, id);
    let f = position_in_flight(state.in_flight, id);
    let o = position_of_outcome(state.finished, id);
    if state.is_pending(id) && state.is_in_flight(id) {
        assert(state.pending[p].id != state.in_flight[f].task.id);
    }
    if state.is_pending(id) && state.is_finished(id) {
        assert(state.pending[p].id != state.finished[o].result.task_id);
    }
    if state.is_in_flight(id) && state.is_finished(id) {
        assert(state.in_flight[f].task.id != state.finished[o].result.task_id);
    }
}

impl CoordinatorView {
    /// The state with one more task waiting, put in its place in the queue.
    pub open spec fn with_pending(self, task: TaskView) -> Self {
        CoordinatorView { pending: enqueued(self.pending, task), ..self }
    }

    /// The state without the pending task at the given position.
    pub open spec fn without_pending(self, at: int) -> Self {
        CoordinatorView { pending: self.pending.remove(at), ..self }
    }

    /// The state with one more task in flight: the entry is added and the
    /// worker that holds it has one more task.
    pub open spec fn with_in_flight(self, entry: InFlightView) -> Self {
        let at = position_of_worker(self.workers, entry.worker_id);
        CoordinatorView {
            workers: self.workers.update(at, self.workers[at].after_assignment()),
            in_flight: self.in_flight.push(entry),
            ..self
        }
    }

    /// The state without the in-flight entry at the given position: the entry
    /// is taken out and the worker that held it has one task less.
    pub open spec fn without_in_flight(self, at: int) -> Self {
        let worker = position_of_worker(self.workers, self.in_flight[at].worker_id);
        CoordinatorView {
            workers: self.workers.update(worker, self.workers[worker].after_release()),
            in_flight: self.in_flight.remove(at),
            ..self
        }
    }

    /// The state with one more outcome on record and counted. The counters
    /// stop at the largest number they can hold.
    pub open spec fn with_outcome(self, outcome: TaskOutcomeView) -> Self {
        CoordinatorView {
            finished: self.finished.push(outcome),
            tasks_processed: saturating_sum(self.tasks_processed, 1),
            tasks_failed: if outcome.result.status == TaskStatus::Failed {
                saturating_sum(self.tasks_failed, 1)
            } else {
                self.tasks_failed
            },
            processing_time_ms: saturating_sum(
                self.processing_time_ms,
                outcome.result.processing_time_ms,
            ),
            ..self
        }
    }

    /// The identifiers of the tasks that have been completed.
    pub open spec fn completed(self) -> Set<TaskId> {
        Set::new(
            |id: TaskId|
                exists|i: int|
                    0 <= i < self.finished.len() && (#[trigger] self.finished[i]).result.task_id
                        == id && self.finished[i].result.status == TaskStatus::Completed,
        )
    }
}

/// A new task that waits keeps the state well formed.
pub proof fn lemma_with_pending(state: CoordinatorView, task: TaskView)
    requires
        state.wf(),
        !state.knows(task.id),
        task.status == TaskStatus::Pending,
        task.retry_count <= task.max_retries,
    ensures
        state.with_pending(task).wf(),
        state.balanced() ==> state.with_pending(task).balanced(),
        state.with_pending(task).completed() == state.completed(),
{
    let after = state.with_pending(task);
    let at = insertion_point(state.pending, task);
    lemma_insertion_point(state.pending, task);
    lemma_enqueued_ordered(state.pending, task);
    lemma_unknown(state, task.id);
    assert forall|i: int| 0 <= i < after.pending.len() implies {
        &&& (#[trigger] after.pending[i]).status == TaskStatus::Pending
        &&& after.pending[i].retry_count <= after.pending[i].max_retries
    } by {
        if i < at {
            assert(after.pending[i] == state.pending[i]);
        } else if i > at {
            assert(after.pending[i] == state.pending[i - 1]);
        }
    }
    assert forall|i: int, j: int| 0 <= i < j < after.pending.len() implies (
    #[trigger] after.pending[i]).id != (#[trigger] after.pending[j]).id by {
        let before_i = if i < at { i } else { i - 1 };
        let before_j = if j < at { j } else { j - 1 };
        if i != at {
            assert(after.pending[i] == state.pending[before_i]);
        }
        if j != at {
            assert(after.pending[j] == state.pending[before_j]);
        }
    }
    assert forall|i: int, j: int|
        0 <= i < after.pending.len() && 0 <= j < after.in_flight.len() implies (
    #[trigger] after.pending[i]).id != (#[trigger] after.in_flight[j]).task.id by {
        let before_i = if i < at { i } else { i - 1 };
        if i != at {
            assert(after.pending[i] == state.pending[before_i]);
        }
    }
    assert forall|i: int, j: int|
        0 <= i < after.pending.len() && 0 <= j < after.finished.len() implies (
    #[trigger] after.pending[i]).id != (#[trigger] after.finished[j]).result.task_id by {
        let before_i = if i < at { i } else { i - 1 };
        if i != at {
            assert(after.pending[i] == state.pending[before_i]);
        }
    }
    assert(after.completed() =~= state.completed());
}

/// Taking a pending task out keeps the state well formed, and the task is
/// then unknown.
pub proof fn lemma_without_pending(state: CoordinatorView, at: int)
    requires
        state.wf(),
        0 <= at < state.pending.len(),
    ensures
        state.without_pending(at).wf(),
        !state.without_pending(at).knows(state.pending[at].id),
        state.balanced() ==> state.without_pending(at).balanced(),
        state.without_pending(at).completed() == state.completed(),
{
    let after = state.without_pending(at);
    let id = state.pending[at].id;
    lemma_removal_ordered(state.pending, at);
    assert forall|i: int| 0 <= i < after.pending.len() implies {
        &&& (#[trigger] after.pending[i]).status == TaskStatus::Pending
        &&& after.pending[i].retry_count <= after.pending[i].max_retries
        &&& after.pending[i].id != id
    } by {
        let before_i = if i < at { i } else { i + 1 };
        assert(after.pending[i] == state.pending[before_i]);
        if before_i < at {
            assert(state.pending[before_i].id != state.pending[at].id);
        } else {
            assert(state.pending[at].id != state.pending[before_i].id);
        }
    }
    assert forall|i: int, j: int| 0 <= i < j < after.pending.len() implies (
    #[trigger] after.pending[i]).id != (#[trigger] after.pending[j]).id by {
        let before_i = if i < at { i } else { i + 1 };
        let before_j = if j < at { j } else { j + 1 };
        assert(after.pending[i] == state.pending[before_i]);
        assert(after.pending[j] == state.pending[before_j]);
    }
    assert forall|i: int, j: int|
        0 <= i < after.pending.len() && 0 <= j < after.in_flight.len() implies (
    #[trigger] after.pending[i]).id != (#[trigger] after.in_flight[j]).task.id by {
        let before_i = if i < at { i } else { i + 1 };
        assert(after.pending[i] == state.pending[before_i]);
    }
    assert forall|i: int, j: int|
        0 <= i < after.pending.len() && 0 <= j < after.finished.len() implies (
    #[trigger] after.pending[i]).id != (#[trigger] after.finished[j]).result.task_id by {
        let before_i = if i < at { i } else { i + 1 };
        assert(after.pending[i] == state.pending[before_i]);
    }
    lemma_position_of_pending(after.pending, id);
    lemma_position_in_flight(after.in_flight, id);
    lemma_position_of_outcome(after.finished, id);
    if after.is_pending(id) {
        assert(after.pending[position_of_pending(after.pending, id)].id != id);
    }
    if after.is_in_flight(id) {
        assert(state.pending[at].id != state.in_flight[position_in_flight(
            state.in_flight,
            id,
        )].task.id);
    }
    if after.is_finished(id) {
        assert(state.pending[at].id != state.finished[position_of_outcome(
            state.finished,
            id,
        )].result.task_id);
    }
    assert(after.completed() =~= state.completed());
}

/// Changing the record of one worker without changing its identifier leaves
/// every worker where it was.
pub proof fn lemma_update_keeps_positions(
    workers: Seq<WorkerRecordView>,
    at: int,
    record: WorkerRecordView,
)
    requires
        0 <= at < workers.len(),
        record.id == workers[at].id,
        distinct_workers(workers),
    ensures
        distinct_workers(workers.update(at, record)),
        forall|id: WorkerId|
            position_of_worker(workers.update(at, record), id) == position_of_worker(workers, id),
{
    let after = workers.update(at, record);
    assert forall|i: int, j: int| 0 <= i < j < after.len() implies (#[trigger] after[i]).id != (
    #[trigger] after[j]).id by {
        assert(workers[i].id != workers[j].id);
    }
    assert forall|id: WorkerId| position_of_worker(after, id) == position_of_worker(
        workers,
        id,
    ) by {
        lemma_same_ids(after, workers, id);
    }
}

/// A task given to a registered worker with capacity left keeps the state
/// well formed and the loads accounted for.
pub proof fn lemma_with_in_flight(state: CoordinatorView, entry: InFlightView)
    requires
        state.wf(),
        !state.knows(entry.task.id),
        entry.task.status == TaskStatus::Assigned,
        entry.task.retry_count <= entry.task.max_retries,
        is_registered(state.workers, entry.worker_id),
        state.workers[position_of_worker(state.workers, entry.worker_id)].has_capacity(),
    ensures
        state.with_in_flight(entry).wf(),
        state.balanced() ==> state.with_in_flight(entry).balanced(),
        state.with_in_flight(entry).completed() == state.completed(),
{
    let after = state.with_in_flight(entry);
    let at = position_of_worker(state.workers, entry.worker_id);
    lemma_position_of_worker(state.workers, entry.worker_id);
    lemma_update_keeps_positions(state.workers, at, state.workers[at].after_assignment());
    lemma_unknown(state, entry.task.id);
    assert forall|i: int| 0 <= i < after.workers.len() implies (#[trigger] after.workers[i]).wf() by {
        assert(state.workers[i].wf());
    }
    assert forall|i: int| 0 <= i < after.in_flight.len() implies {
        &&& (#[trigger] after.in_flight[i]).task.status == TaskStatus::Assigned
            || after.in_flight[i].task.status == TaskStatus::Processing
        &&& after.in_flight[i].task.retry_count <= after.in_flight[i].task.max_retries
        &&& is_registered(after.workers, after.in_flight[i].worker_id)
    } by {
        if i < state.in_flight.len() {
            assert(after.in_flight[i] == state.in_flight[i]);
        }
    }
    if state.balanced() {
        assert forall|i: int| 0 <= i < after.workers.len() implies (
        #[trigger] after.workers[i]).current_load == load_of(
            after.in_flight,
            after.workers[i].id,
        ) by {
            lemma_load_of_push(state.in_flight, entry, after.workers[i].id);
            assert(state.workers[i].current_load == load_of(state.in_flight, state.workers[i].id));
            if i != at {
                if i < at {
                    assert(state.workers[i].id != state.workers[at].id);
                } else {
                    assert(state.workers[at].id != state.workers[i].id);
                }
            }
        }
    }
    assert(after.completed() =~= state.completed());
}

/// Taking an in-flight task out keeps the state well formed and the loads
/// accounted for, and the task is then unknown.
pub proof fn lemma_without_in_flight(state: CoordinatorView, at: int)
    requires
        state.wf(),
        0 <= at < state.in_flight.len(),
    ensures
        state.without_in_flight(at).wf(),
        !state.without_in_flight(at).knows(state.in_flight[at].task.id),
        state.balanced() ==> state.without_in_flight(at).balanced(),
        state.without_in_flight(at).completed() == state.completed(),
        state.without_in_flight(at).workers.len() == state.workers.len(),
        forall|id: WorkerId|
            position_of_worker(state.without_in_flight(at).workers, id) == position_of_worker(
                state.workers,
                id,
            ),
{
    let after = state.without_in_flight(at);
    let id = state.in_flight[at].task.id;
    let holder = state.in_flight[at].worker_id;
    let worker = position_of_worker(state.workers, holder);
    assert(is_registered(state.workers, state.in_flight[at].worker_id));
    lemma_position_of_worker(state.workers, holder);
    lemma_update_keeps_positions(state.workers, worker, state.workers[worker].after_release());
    assert forall|i: int| 0 <= i < after.workers.len() implies (#[trigger] after.workers[i]).wf() by {
        assert(state.workers[i].wf());
    }
    assert forall|i: int| 0 <= i < after.in_flight.len() implies {
        &&& (#[trigger] after.in_flight[i]).task.status == TaskStatus::Assigned
            || after.in_flight[i].task.status == TaskStatus::Processing
        &&& after.in_flight[i].task.retry_count <= after.in_flight[i].task.max_retries
        &&& is_registered(after.workers, after.in_flight[i].worker_id)
        &&& after.in_flight[i].task.id != id
    } by {
        let before_i = if i < at { i } else { i + 1 };
        assert(after.in_flight[i] == state.in_flight[before_i]);
        if before_i < at {
            assert(state.in_flight[before_i].task.id != state.in_flight[at].task.id);
        } else {
            assert(state.in_flight[at].task.id != state.in_flight[before_i].task.id);
        }
    }
    assert forall|i: int, j: int| 0 <= i < j < after.in_flight.len() implies (
    #[trigger] after.in_flight[i]).task.id != (#[trigger] after.in_flight[j]).task.id by {
        let before_i = if i < at { i } else { i + 1 };
        let before_j = if j < at { j } else { j + 1 };
        assert(after.in_flight[i] == state.in_flight[before_i]);
        assert(after.in_flight[j] == state.in_flight[before_j]);
    }
    assert forall|i: int, j: int|
        0 <= i < after.pending.len() && 0 <= j < after.in_flight.len() implies (
    #[trigger] after.pending[i]).id != (#[trigger] after.in_flight[j]).task.id by {
        let before_j = if j < at { j } else { j + 1 };
        assert(after.in_flight[j] == state.in_flight[before_j]);
    }
    assert forall|i: int, j: int|
        0 <= i < after.in_flight.len() && 0 <= j < after.finished.len() implies (
    #[trigger] after.in_flight[i]).task.id != (#[trigger] after.finished[j]).result.task_id by {
        let before_i = if i < at { i } else { i + 1 };
        assert(after.in_flight[i] == state.in_flight[before_i]);
    }
    lemma_position_of_pending(after.pending, id);
    lemma_position_in_flight(after.in_flight, id);
    lemma_position_of_outcome(after.finished, id);
    if after.is_pending(id) {
        assert(state.pending[position_of_pending(state.pending, id)].id
            != state.in_flight[at].task.id);
    }
    if after.is_in_flight(id) {
        assert(after.in_flight[position_in_flight(after.in_flight, id)].task.id != id);
    }
    if after.is_finished(id) {
        assert(state.in_flight[at].task.id != state.finished[position_of_outcome(
            state.finished,
            id,
        )].result.task_id);
    }
    if state.balanced() {
        lemma_load_of_present(state.in_flight, at);
        assert(state.workers[worker].current_load == load_of(state.in_flight, holder));
        assert forall|i: int| 0 <= i < after.workers.len() implies (
        #[trigger] after.workers[i]).current_load == load_of(
            after.in_flight,
            after.workers[i].id,
        ) by {
            lemma_load_of_remove(state.in_flight, at, after.workers[i].id);
            assert(state.workers[i].current_load == load_of(state.in_flight, state.workers[i].id));
            if i != worker {
                if i < worker {
                    assert(state.workers[i].id != state.workers[worker].id);
                } else {
                    assert(state.workers[worker].id != state.workers[i].id);
                }
            }
        }
    }
    assert(after.completed() =~= state.completed());
}

/// A well-formed outcome of a task that is otherwise unknown keeps the state
/// well formed. The task counts as completed from then on if, and only if,
/// the outcome says so.
pub proof fn lemma_with_outcome(state: CoordinatorView, outcome: TaskOutcomeView)
    requires
        state.wf(),
        !state.knows(outcome.result.task_id),
        outcome.wf(),
    ensures
        state.with_outcome(outcome).wf(),
        state.balanced() ==> state.with_outcome(outcome).balanced(),
        state.with_outcome(outcome).completed() == if outcome.result.status
            == TaskStatus::Completed {
            state.completed().insert(outcome.result.task_id)
        } else {
            state.completed()
        },
        !state.completed().contains(outcome.result.task_id),
{
    let after = state.with_outcome(outcome);
    lemma_unknown(state, outcome.result.task_id);
    assert forall|i: int| 0 <= i < after.finished.len() implies (#[trigger] after.finished[i]).wf() by {
        if i < state.finished.len() {
            assert(after.finished[i] == state.finished[i]);
            assert(state.finished[i].wf());
        }
    }
    assert forall|i: int, j: int| 0 <= i < j < after.finished.len() implies (
    #[trigger] after.finished[i]).result.task_id != (#[trigger] after.finished[j]).result.task_id by {
        assert(after.finished[i] == state.finished[i]);
        if j < state.finished.len() {
            assert(after.finished[j] == state.finished[j]);
        }
    }
    assert forall|i: int, j: int|
        0 <= i < after.pending.len() && 0 <= j < after.finished.len() implies (
    #[trigger] after.pending[i]).id != (#[trigger] after.finished[j]).result.task_id by {
        if j < state.finished.len() {
            assert(after.finished[j] == state.finished[j]);
        }
    }
    assert forall|i: int, j: int|
        0 <= i < after.in_flight.len() && 0 <= j < after.finished.len() implies (
    #[trigger] after.in_flight[i]).task.id != (#[trigger] after.finished[j]).result.task_id by {
        if j < state.finished.len() {
            assert(after.finished[j] == state.finished[j]);
        }
    }
    let expected = if outcome.result.status == TaskStatus::Completed {
        state.completed().insert(outcome.result.task_id)
    } else {
        state.completed()
    };
    assert forall|id: TaskId| after.completed().contains(id) == expected.contains(id) by {
        if after.completed().contains(id) {
            let i = choose|i: int|
                0 <= i < after.finished.len() && (#[trigger] after.finished[i]).result.task_id
                    == id && after.finished[i].result.status == TaskStatus::Completed;
            if i < state.finished.len() {
                assert(after.finished[i] == state.finished[i]);
            }
        }
        if state.completed().contains(id) {
            let i = choose|i: int|
                0 <= i < state.finished.len() && (#[trigger] state.finished[i]).result.task_id
                    == id && state.finished[i].result.status == TaskStatus::Completed;
            assert(after.finished[i] == state.finished[i]);
        }
        if outcome.result.status == TaskStatus::Completed && id == outcome.result.task_id {
            assert(after.finished[state.finished.len() as int] == outcome);
        }
    }
    assert(after.completed() =~= expected);
}

/// In a well-formed state a completed task neither waits nor is in flight,
/// and its status is `Completed`.
pub proof fn lemma_completed_is_finished(state: CoordinatorView, id: TaskId)
    requires
        state.wf(),
        state.completed().contains(id),
    ensures
        !state.is_pending(id),
        !state.is_in_flight(id),
        state.status_of(id) == Some(TaskStatus::Completed),
{
    let i = choose|i: int|
        0 <= i < state.finished.len() && (#[trigger] state.finished[i]).result.task_id == id
            && state.finished[i].result.status == TaskStatus::Completed;
    lemma_position_of_outcome(state.finished, id);
    let found = position_of_outcome(state.finished, id);
    if found < i {
        assert(state.finished[found].result.task_id != state.finished[i].result.task_id);
    }
    lemma_one_place(state, id);
}

} // verus!
