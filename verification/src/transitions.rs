//! What each operation of the coordinator does to its state.

use crate::registry::{is_registered, position_of_worker, WorkerRecordView};
use crate::rules::{as_assigned, as_pending, as_retry};
use crate::scheduler::{best_worker, compatible, eligible};
use crate::state::{
    position_in_flight, position_of_outcome, position_of_pending, CoordinatorView, FailureKind,
    InFlightView, TaskOutcomeView,
};
use crate::task::{TaskResultView, TaskView};
use crate::types::{TaskId, TaskStatus, Timestamp, WorkerId};
use crate::worker::{WorkerConfigView, WorkerHealthView};
use vstd::prelude::*;

verus! {

/// Why a task was not accepted.
#[derive(Debug, Clone, Copy, PartialEq, Eq, Structural)]
pub enum SubmitError {
    /// The coordinator is shutting down.
    ShuttingDown,
    /// The identifier of the task is nil.
    NilId,
    /// The payload is not of the form that tasks of this kind carry.
    PayloadMismatch,
    /// The coordinator holds a task with this identifier already.
    DuplicateId,
}

/// The result that is recorded for a task that ended without a worker's
/// report: no data, no processing time, and the reason as its error.
pub open spec fn closing_result(
    task: TaskView,
    status: TaskStatus,
    reason: Option<Seq<char>>,
    now: Timestamp,
) -> TaskResultView {
    TaskResultView {
        task_id: task.id,
        status,
        result: None,
        error: reason,
        processing_time_ms: 0,
        completed_at: now,
        metadata: Seq::empty(),
    }
}

/// The outcome of a task that was cancelled at `now`.
pub open spec fn cancelled_outcome(task: TaskView, now: Timestamp) -> TaskOutcomeView {
    TaskOutcomeView {
        result: closing_result(task, TaskStatus::Cancelled, None, now),
        retry_count: task.retry_count,
        max_retries: task.max_retries,
        failure: None,
    }
}

/// The outcome of a task that no worker took before its deadline.
pub open spec fn expired_outcome(task: TaskView, kind: FailureKind, now: Timestamp) -> TaskOutcomeView {
    TaskOutcomeView {
        result: closing_result(
            task,
            TaskStatus::Failed,
            Some(
                if kind == FailureKind::NoWorker {
                    "no_worker"@
                } else {
                    "deadline_exceeded"@
                },
            ),
            now,
        ),
        retry_count: task.retry_count,
        max_retries: task.max_retries,
        failure: Some(kind),
    }
}

/// The outcome of a task for which a worker reported a final result.
pub open spec fn reported_outcome(task: TaskView, result: TaskResultView) -> TaskOutcomeView {
    TaskOutcomeView {
        result,
        retry_count: task.retry_count,
        max_retries: task.max_retries,
        failure: if result.status == TaskStatus::Failed {
            Some(FailureKind::Execution)
        } else {
            None
        },
    }
}

/// Whether the deadline of the task has passed at `now`.
pub open spec fn overdue(task: TaskView, now: Timestamp) -> bool {
    match task.deadline {
        Some(deadline) => now > deadline,
        None => false,
    }
}

/// Position of the first overdue task, or the number of tasks where none is
/// overdue.
pub open spec fn first_overdue(tasks: Seq<TaskView>, now: Timestamp) -> int
    decreases tasks.len(),
{
    if tasks.len() == 0 {
        0
    } else if overdue(tasks[0], now) {
        0
    } else {
        1 + first_overdue(tasks.drop_first(), now)
    }
}

/// Position of the first in-flight task held by the given worker, or the
/// number of in-flight tasks where it holds none.
pub open spec fn first_held_by(in_flight: Seq<InFlightView>, worker: WorkerId) -> int
    decreases in_flight.len(),
{
    if in_flight.len() == 0 {
        0
    } else if in_flight[0].worker_id == worker {
        0
    } else {
        1 + first_held_by(in_flight.drop_first(), worker)
    }
}

/// Whether a request to cancel the task has gone unanswered for longer than
/// `grace_ms`.
pub open spec fn cancellation_overdue(entry: InFlightView, now: Timestamp, grace_ms: u64) -> bool {
    match entry.cancel_requested_at {
        Some(requested) => now - requested > grace_ms,
        None => false,
    }
}

/// Position of the first in-flight task whose cancellation is overdue, or the
/// number of in-flight tasks where there is none.
pub open spec fn first_unanswered(in_flight: Seq<InFlightView>, now: Timestamp, grace_ms: u64) -> int
    decreases in_flight.len(),
{
    if in_flight.len() == 0 {
        0
    } else if cancellation_overdue(in_flight[0], now, grace_ms) {
        0
    } else {
        1 + first_unanswered(in_flight.drop_first(), now, grace_ms)
    }
}

/// Position of the first stale worker, or the number of workers where none
/// is stale.
pub open spec fn first_stale(workers: Seq<WorkerRecordView>, now: Timestamp, timeout_ms: u64) -> int
    decreases workers.len(),
{
    if workers.len() == 0 {
        0
    } else if workers[0].stale(now, timeout_ms) {
        0
    } else {
        1 + first_stale(workers.drop_first(), now, timeout_ms)
    }
}

/// The capacity that the workers in service have left, all together.
pub open spec fn free_capacity(workers: Seq<WorkerRecordView>) -> nat
    decreases workers.len(),
{
    if workers.len() == 0 {
        0
    } else {
        free_capacity(workers.drop_last()) + if workers.last().status.in_service()
            && workers.last().has_capacity() {
            (workers.last().max_concurrent_tasks - workers.last().current_load) as nat
        } else {
            0nat
        }
    }
}

/// Whether some registered worker is compatible with the task.
pub open spec fn some_compatible(workers: Seq<WorkerRecordView>, task: TaskView) -> bool {
    exists|i: int| 0 <= i < workers.len() && compatible(#[trigger] workers[i], task)
}

impl CoordinatorView {
    /// Why the task is refused, if it is: the coordinator is shutting down,
    /// the identifier is nil, the payload does not fit the kind, or the
    /// identifier is taken, in this order.
    pub open spec fn submit_refusal(self, task: TaskView) -> Option<SubmitError> {
        if !self.accepting {
            Some(SubmitError::ShuttingDown)
        } else if task.id == 0 {
            Some(SubmitError::NilId)
        } else if !task.payload.fits(task.task_type) {
            Some(SubmitError::PayloadMismatch)
        } else if self.knows(task.id) {
            Some(SubmitError::DuplicateId)
        } else {
            None
        }
    }

    /// The state after a task has been submitted. An accepted task waits,
    /// pending and with no retry counted; a refused task changes nothing.
    pub open spec fn after_submit(self, task: TaskView) -> Self {
        if self.submit_refusal(task).is_some() {
            self
        } else {
            self.with_pending(TaskView { status: TaskStatus::Pending, retry_count: 0, ..task })
        }
    }

    /// The state after a worker has registered under an identifier that was
    /// free.
    pub open spec fn after_register(self, id: WorkerId, config: WorkerConfigView, now: Timestamp) -> Self {
        CoordinatorView {
            workers: self.workers.push(WorkerRecordView::registered(id, config, now)),
            ..self
        }
    }

    /// The state after a heartbeat. A heartbeat of an unknown worker changes
    /// nothing.
    pub open spec fn after_heartbeat(self, id: WorkerId, health: WorkerHealthView) -> Self {
        let at = position_of_worker(self.workers, id);
        if at < self.workers.len() {
            CoordinatorView {
                workers: self.workers.update(at, self.workers[at].after_heartbeat(health)),
                ..self
            }
        } else {
            self
        }
    }

    /// The in-flight entry that is made when the pending task at
    /// `queue_index` is given to the worker at `worker_index`.
    pub open spec fn assignment(self, queue_index: int, worker_index: int, now: Timestamp) -> InFlightView {
        InFlightView {
            task: as_assigned(self.pending[queue_index]),
            worker_id: self.workers[worker_index].id,
            assigned_at: now,
            cancel_requested_at: None,
        }
    }

    /// The state after the pending task at `queue_index` has been given to
    /// the worker at `worker_index`: the task leaves the queue and is in
    /// flight, assigned, and the worker has one more task.
    pub open spec fn after_assignment(self, queue_index: int, worker_index: int, now: Timestamp) -> Self {
        self.without_pending(queue_index).with_in_flight(
            self.assignment(queue_index, worker_index, now),
        )
    }

    /// How many pending tasks one round of scheduling tries: as many as the
    /// workers in service have capacity left, and no more than there are.
    pub open spec fn dispatch_budget(self) -> nat {
        if free_capacity(self.workers) < self.pending.len() {
            free_capacity(self.workers)
        } else {
            self.pending.len()
        }
    }

    /// The state after a round of scheduling has tried `budget` more pending
    /// tasks, from the one at `cursor` on. A task for which a worker is
    /// eligible is given to the best of them; any other stays where it is.
    pub open spec fn after_dispatch(self, now: Timestamp, cursor: int, budget: nat) -> Self
        decreases budget,
    {
        if budget == 0 || cursor < 0 || cursor >= self.pending.len() {
            self
        } else {
            match best_worker(self.workers, self.pending[cursor]) {
                Some(worker) => self.after_assignment(cursor, worker, now).after_dispatch(
                    now,
                    cursor,
                    (budget - 1) as nat,
                ),
                None => self.after_dispatch(now, cursor + 1, (budget - 1) as nat),
            }
        }
    }

    /// The state after one round of scheduling.
    pub open spec fn after_tick(self, now: Timestamp) -> Self {
        self.after_dispatch(now, 0, self.dispatch_budget())
    }

    /// The state after the assignment of a task has been undone: the task
    /// waits again, with its retries as they were, and its worker has one
    /// task less. Nothing changes if the task is not in flight.
    pub open spec fn after_rollback(self, id: TaskId) -> Self {
        let at = position_in_flight(self.in_flight, id);
        if at < self.in_flight.len() {
            self.without_in_flight(at).with_pending(as_pending(self.in_flight[at].task))
        } else {
            self
        }
    }

    /// The state with the end of a task counted for the worker with the given
    /// identifier.
    pub open spec fn with_result_counted(self, worker: WorkerId, status: TaskStatus) -> Self {
        let at = position_of_worker(self.workers, worker);
        if at < self.workers.len() {
            CoordinatorView {
                workers: self.workers.update(at, self.workers[at].after_result(status)),
                ..self
            }
        } else {
            self
        }
    }

    /// The state after the first `n` of the given results have come in, one
    /// after the other.
    pub open spec fn after_results(self, results: Seq<TaskResultView>, n: int) -> Self
        decreases n,
    {
        if n <= 0 {
            self
        } else {
            self.after_results(results, n - 1).after_result(results[n - 1])
        }
    }

    /// The state at the beginning of a round of scheduling at `now`, after
    /// the given results have come in, the workers that have not been heard
    /// of for longer than `heartbeat_timeout_ms` have been unregistered, the
    /// pending tasks whose deadline has passed have been given up, and the
    /// cancellations that have gone unanswered for longer than
    /// `cancel_grace_ms` have been carried out.
    pub open spec fn before_round(
        self,
        results: Seq<TaskResultView>,
        now: Timestamp,
        heartbeat_timeout_ms: u64,
        cancel_grace_ms: u64,
    ) -> Self {
        let taken = self.after_results(results, results.len() as int);
        let kept = taken.after_eviction(now, heartbeat_timeout_ms, taken.workers.len());
        kept.after_expiry(now).after_cancel_grace(now, cancel_grace_ms)
    }

    /// The identifiers of the tasks that a round of scheduling at `now`
    /// assigns, in the order in which it assigns them.
    pub open spec fn assigned_in_round(self, now: Timestamp) -> Seq<TaskId> {
        Seq::new(
            (self.after_tick(now).in_flight.len() - self.in_flight.len()) as nat,
            |i: int| self.after_tick(now).in_flight[self.in_flight.len() + i].task.id,
        )
    }

    /// Whether a result is taken: it is final and its task is in flight.
    pub open spec fn takes(self, result: TaskResultView) -> bool {
        self.is_in_flight(result.task_id) && result.status.terminal()
    }

    /// Whether a result that is taken leads to another attempt: the task
    /// failed and has retries left.
    pub open spec fn retries(self, result: TaskResultView) -> bool {
        let task = self.in_flight[position_in_flight(self.in_flight, result.task_id)].task;
        self.takes(result) && result.status == TaskStatus::Failed && task.retry_count
            < task.max_retries
    }

    /// The state after a result has arrived. A result that is not final, or
    /// whose task is not in flight, changes nothing. Otherwise the task leaves
    /// its worker, whose load goes down and whose counters go up. A failed
    /// task with retries left waits again with one more retry counted; any
    /// other task has ended and its outcome is recorded.
    pub open spec fn after_result(self, result: TaskResultView) -> Self {
        let at = position_in_flight(self.in_flight, result.task_id);
        if !self.takes(result) {
            self
        } else {
            let entry = self.in_flight[at];
            let released = self.without_in_flight(at).with_result_counted(
                entry.worker_id,
                result.status,
            );
            if self.retries(result) {
                released.with_pending(as_retry(entry.task))
            } else {
                released.with_outcome(reported_outcome(entry.task, result))
            }
        }
    }

    /// The state after the task at `at` of the queue has been given up
    /// because its deadline has passed: it has failed, for want of a worker
    /// where no registered worker is compatible with it, for want of time
    /// otherwise.
    pub open spec fn after_expiry_of(self, at: int, now: Timestamp) -> Self {
        let task = self.pending[at];
        let kind = if some_compatible(self.workers, task) {
            FailureKind::DeadlineExceeded
        } else {
            FailureKind::NoWorker
        };
        self.without_pending(at).with_outcome(expired_outcome(task, kind, now))
    }

    /// The state after every pending task whose deadline has passed has been
    /// given up, in the order of the queue.
    pub open spec fn after_expiry(self, now: Timestamp) -> Self
        decreases self.pending.len(),
    {
        let at = first_overdue(self.pending, now);
        if 0 <= at < self.pending.len() {
            self.after_expiry_of(at, now).after_expiry(now)
        } else {
            self
        }
    }

    /// The state after every task that the worker holds has been taken back,
    /// in the order of assignment: the tasks wait again, with their retries
    /// as they were.
    pub open spec fn after_recall(self, worker: WorkerId) -> Self
        decreases self.in_flight.len(),
    {
        let at = first_held_by(self.in_flight, worker);
        if 0 <= at < self.in_flight.len() {
            self.without_in_flight(at).with_pending(as_pending(self.in_flight[at].task)).after_recall(
                worker,
            )
        } else {
            self
        }
    }

    /// The state after a worker has been unregistered: its tasks are taken
    /// back and its record is removed. Nothing changes if no such worker is
    /// registered.
    pub open spec fn after_unregister(self, worker: WorkerId) -> Self {
        if is_registered(self.workers, worker) {
            let recalled = self.after_recall(worker);
            CoordinatorView {
                workers: recalled.workers.remove(position_of_worker(recalled.workers, worker)),
                ..recalled
            }
        } else {
            self
        }
    }

    /// The state after the stale workers have been unregistered, at most
    /// `rounds` of them, in the order of their registration.
    pub open spec fn after_eviction(self, now: Timestamp, timeout_ms: u64, rounds: nat) -> Self
        decreases rounds,
    {
        let at = first_stale(self.workers, now, timeout_ms);
        if rounds > 0 && 0 <= at < self.workers.len() {
            self.after_unregister(self.workers[at].id).after_eviction(
                now,
                timeout_ms,
                (rounds - 1) as nat,
            )
        } else {
            self
        }
    }

    /// What stands beside the workers after the stale workers have been
    /// unregistered, at most `rounds` of them, where one thing stands beside
    /// every worker: what stood beside a worker that went is gone with it.
    pub open spec fn kept_beside<A>(
        self,
        beside: Seq<A>,
        now: Timestamp,
        timeout_ms: u64,
        rounds: nat,
    ) -> Seq<A>
        decreases rounds,
    {
        let at = first_stale(self.workers, now, timeout_ms);
        if rounds > 0 && 0 <= at < self.workers.len() {
            self.after_unregister(self.workers[at].id).kept_beside(
                beside.remove(at),
                now,
                timeout_ms,
                (rounds - 1) as nat,
            )
        } else {
            beside
        }
    }

    /// The identifiers of the workers that go when the stale workers are
    /// unregistered, at most `rounds` of them, in the order of their going.
    pub open spec fn evicted(self, now: Timestamp, timeout_ms: u64, rounds: nat) -> Seq<WorkerId>
        decreases rounds,
    {
        let at = first_stale(self.workers, now, timeout_ms);
        if rounds > 0 && 0 <= at < self.workers.len() {
            seq![self.workers[at].id] + self.after_unregister(self.workers[at].id).evicted(
                now,
                timeout_ms,
                (rounds - 1) as nat,
            )
        } else {
            Seq::empty()
        }
    }

    /// The state after the task has been marked as picked up by its worker.
    /// Nothing changes if the task is not in flight.
    pub open spec fn after_pickup(self, id: TaskId) -> Self {
        let at = position_in_flight(self.in_flight, id);
        if at < self.in_flight.len() {
            CoordinatorView {
                in_flight: self.in_flight.update(
                    at,
                    InFlightView {
                        task: TaskView { status: TaskStatus::Processing, ..self.in_flight[at].task },
                        ..self.in_flight[at]
                    },
                ),
                ..self
            }
        } else {
            self
        }
    }

    /// The state after the cancellation of a task has been asked for at
    /// `now`. A pending task is cancelled at once. For a task in flight the
    /// request is noted, with the time of the first request. Nothing changes
    /// for any other task.
    pub open spec fn after_cancel(self, id: TaskId, now: Timestamp) -> Self {
        let waiting = position_of_pending(self.pending, id);
        let flying = position_in_flight(self.in_flight, id);
        if waiting < self.pending.len() {
            self.without_pending(waiting).with_outcome(
                cancelled_outcome(self.pending[waiting], now),
            )
        } else if flying < self.in_flight.len() && self.in_flight[flying].cancel_requested_at.is_none() {
            CoordinatorView {
                in_flight: self.in_flight.update(
                    flying,
                    InFlightView { cancel_requested_at: Some(now), ..self.in_flight[flying] },
                ),
                ..self
            }
        } else {
            self
        }
    }

    /// The state after the in-flight task at `at` has been cancelled without
    /// the word of its worker.
    pub open spec fn after_forced_cancel(self, at: int, now: Timestamp) -> Self {
        self.without_in_flight(at).with_outcome(cancelled_outcome(self.in_flight[at].task, now))
    }

    /// The state after every in-flight task whose cancellation has gone
    /// unanswered for longer than `grace_ms` has been cancelled.
    pub open spec fn after_cancel_grace(self, now: Timestamp, grace_ms: u64) -> Self
        decreases self.in_flight.len(),
    {
        let at = first_unanswered(self.in_flight, now, grace_ms);
        if 0 <= at < self.in_flight.len() {
            self.after_forced_cancel(at, now).after_cancel_grace(now, grace_ms)
        } else {
            self
        }
    }

    /// The state after the coordinator has begun to shut down: no new task
    /// is accepted.
    pub open spec fn after_shutdown_begun(self) -> Self {
        CoordinatorView { accepting: false, ..self }
    }

    /// The state after every task in flight has been cancelled.
    pub open spec fn after_flight_cancelled(self, now: Timestamp) -> Self
        decreases self.in_flight.len(),
    {
        if self.in_flight.len() > 0 {
            self.after_forced_cancel(0, now).after_flight_cancelled(now)
        } else {
            self
        }
    }

    /// The state after every pending task has been cancelled.
    pub open spec fn after_queue_cancelled(self, now: Timestamp) -> Self
        decreases self.pending.len(),
    {
        if self.pending.len() > 0 {
            self.without_pending(0).with_outcome(cancelled_outcome(self.pending[0], now)).after_queue_cancelled(
            now)
        } else {
            self
        }
    }

    /// The state after the coordinator has shut down: no task is accepted,
    /// and every task that had not ended is cancelled, those in flight first.
    pub open spec fn after_shutdown(self, now: Timestamp) -> Self {
        self.after_shutdown_begun().after_flight_cancelled(now).after_queue_cancelled(now)
    }

    /// The state after the outcome of a task has been handed over for good.
    pub open spec fn after_take(self, id: TaskId) -> Self {
        let at = position_of_outcome(self.finished, id);
        if at < self.finished.len() {
            CoordinatorView { finished: self.finished.remove(at), ..self }
        } else {
            self
        }
    }
}

} // verus!
