//! Proofs that every operation of the coordinator keeps its state well
//! formed, keeps the loads accounted for, and completes a task only upon a
//! result that says so.

use crate::registry::{
    is_registered, lemma_position_of_distinct, lemma_position_of_worker, position_of_worker,
    WorkerRecordView,
};
use crate::rules::{
    as_pending, as_retry, lemma_update_keeps_positions, lemma_with_in_flight, lemma_with_outcome,
    lemma_with_pending, lemma_without_in_flight, lemma_without_pending,
};
use crate::state::{
    lemma_load_of_absent, lemma_load_of_update, lemma_position_in_flight,
    lemma_position_of_outcome, lemma_position_of_pending, load_of, position_in_flight,
    position_of_outcome, position_of_pending, CoordinatorView, FailureKind, InFlightView,
};
use crate::task::{TaskResultView, TaskView};
use crate::transitions::{
    cancelled_outcome, expired_outcome, first_held_by, reported_outcome, some_compatible,
};
use crate::types::{TaskId, TaskStatus, Timestamp, WorkerId};
use crate::worker::{WorkerConfigView, WorkerHealthView};
use vstd::prelude::*;

verus! {

/// A registered worker stays where it is when another registers.
pub proof fn lemma_position_after_push(
    workers: Seq<WorkerRecordView>,
    record: WorkerRecordView,
    id: WorkerId,
)
    ensures
        is_registered(workers, id) ==> position_of_worker(workers.push(record), id)
            == position_of_worker(workers, id),
        !is_registered(workers, id) && record.id == id ==> position_of_worker(
            workers.push(record),
            id,
        ) == workers.len(),
    decreases workers.len(),
{
    if workers.len() == 0 {
    } else if workers[0].id == id {
    } else {
        assert(workers.push(record).drop_first() =~= workers.drop_first().push(record));
        lemma_position_after_push(workers.drop_first(), record, id);
    }
}

/// Submitting a task keeps the state well formed.
pub proof fn lemma_after_submit(state: CoordinatorView, task: TaskView)
    requires
        state.wf(),
    ensures
        state.after_submit(task).wf(),
        state.balanced() ==> state.after_submit(task).balanced(),
        state.after_submit(task).completed() == state.completed(),
{
    if state.submit_refusal(task).is_none() {
        lemma_with_pending(
            state,
            TaskView { status: TaskStatus::Pending, retry_count: 0, ..task },
        );
    }
}

/// Registering a worker under a free identifier keeps the state well formed.
pub proof fn lemma_after_register(
    state: CoordinatorView,
    id: WorkerId,
    config: WorkerConfigView,
    now: Timestamp,
)
    requires
        state.wf(),
        !is_registered(state.workers, id),
    ensures
        state.after_register(id, config, now).wf(),
        state.balanced() ==> state.after_register(id, config, now).balanced(),
        state.after_register(id, config, now).completed() == state.completed(),
{
    let after = state.after_register(id, config, now);
    let record = WorkerRecordView::registered(id, config, now);
    lemma_position_of_worker(state.workers, id);
    assert forall|i: int, j: int| 0 <= i < j < after.workers.len() implies (
    #[trigger] after.workers[i]).id != (#[trigger] after.workers[j]).id by {
        if j < state.workers.len() {
            assert(state.workers[i].id != state.workers[j].id);
        } else {
            assert(state.workers[i].id != id);
        }
    }
    assert forall|i: int| 0 <= i < after.workers.len() implies (#[trigger] after.workers[i]).wf() by {
        if i < state.workers.len() {
            assert(state.workers[i].wf());
        }
    }
    assert forall|i: int| 0 <= i < after.in_flight.len() implies is_registered(
        after.workers,
        (#[trigger] after.in_flight[i]).worker_id,
    ) by {
        assert(is_registered(state.workers, state.in_flight[i].worker_id));
        lemma_position_after_push(state.workers, record, state.in_flight[i].worker_id);
    }
    assert(after.completed() =~= state.completed());
    if state.balanced() {
        assert forall|i: int| 0 <= i < state.in_flight.len() implies (
        #[trigger] state.in_flight[i]).worker_id != id by {
            assert(is_registered(state.workers, state.in_flight[i].worker_id));
        }
        lemma_load_of_absent(state.in_flight, id);
        assert forall|i: int| 0 <= i < after.workers.len() implies (
        #[trigger] after.workers[i]).current_load == load_of(
            after.in_flight,
            after.workers[i].id,
        ) by {
            if i < state.workers.len() {
                assert(state.workers[i].current_load == load_of(
                    state.in_flight,
                    state.workers[i].id,
                ));
            }
        }
    }
}

/// A heartbeat keeps the state well formed. It keeps the loads accounted for
/// if the load that it reports is the load on record.
pub proof fn lemma_after_heartbeat(state: CoordinatorView, id: WorkerId, health: WorkerHealthView)
    requires
        state.wf(),
    ensures
        state.after_heartbeat(id, health).wf(),
        state.balanced() && (is_registered(state.workers, id) ==> health.current_load
            == state.workers[position_of_worker(state.workers, id)].current_load)
            ==> state.after_heartbeat(id, health).balanced(),
        state.after_heartbeat(id, health).completed() == state.completed(),
{
    let after = state.after_heartbeat(id, health);
    let at = position_of_worker(state.workers, id);
    lemma_position_of_worker(state.workers, id);
    if at < state.workers.len() {
        let record = state.workers[at].after_heartbeat(health);
        lemma_update_keeps_positions(state.workers, at, record);
        assert forall|i: int| 0 <= i < after.workers.len() implies (#[trigger] after.workers[i]).wf() by {
            assert(state.workers[i].wf());
        }
        assert forall|i: int| 0 <= i < after.in_flight.len() implies is_registered(
            after.workers,
            (#[trigger] after.in_flight[i]).worker_id,
        ) by {
            assert(is_registered(state.workers, state.in_flight[i].worker_id));
        }
        assert(after.completed() =~= state.completed());
        if state.balanced() && health.current_load == state.workers[at].current_load {
            assert(state.workers[at].wf());
            assert forall|i: int| 0 <= i < after.workers.len() implies (
            #[trigger] after.workers[i]).current_load == load_of(
                after.in_flight,
                after.workers[i].id,
            ) by {
                assert(state.workers[i].current_load == load_of(
                    state.in_flight,
                    state.workers[i].id,
                ));
            }
        }
    }
}

/// Giving a pending task to a worker with capacity left keeps the state well
/// formed and the loads accounted for.
pub proof fn lemma_after_assignment(
    state: CoordinatorView,
    queue_index: int,
    worker_index: int,
    now: Timestamp,
)
    requires
        state.wf(),
        0 <= queue_index < state.pending.len(),
        0 <= worker_index < state.workers.len(),
        state.workers[worker_index].has_capacity(),
    ensures
        state.after_assignment(queue_index, worker_index, now).wf(),
        state.balanced() ==> state.after_assignment(queue_index, worker_index, now).balanced(),
        state.after_assignment(queue_index, worker_index, now).completed() == state.completed(),
        state.after_assignment(queue_index, worker_index, now).pending == state.pending.remove(
            queue_index,
        ),
        state.after_assignment(queue_index, worker_index, now).in_flight == state.in_flight.push(
            state.assignment(queue_index, worker_index, now),
        ),
        state.after_assignment(queue_index, worker_index, now).workers == state.workers.update(
            worker_index,
            state.workers[worker_index].after_assignment(),
        ),
{
    let entry = state.assignment(queue_index, worker_index, now);
    lemma_without_pending(state, queue_index);
    lemma_position_of_distinct(state.workers, worker_index);
    assert(state.pending[queue_index].retry_count <= state.pending[queue_index].max_retries);
    lemma_with_in_flight(state.without_pending(queue_index), entry);
}

/// Undoing an assignment keeps the state well formed and the loads
/// accounted for.
pub proof fn lemma_after_rollback(state: CoordinatorView, id: TaskId)
    requires
        state.wf(),
    ensures
        state.after_rollback(id).wf(),
        state.balanced() ==> state.after_rollback(id).balanced(),
        state.after_rollback(id).completed() == state.completed(),
{
    let at = position_in_flight(state.in_flight, id);
    lemma_position_in_flight(state.in_flight, id);
    if at < state.in_flight.len() {
        lemma_without_in_flight(state, at);
        assert(state.in_flight[at].task.retry_count <= state.in_flight[at].task.max_retries);
        lemma_with_pending(state.without_in_flight(at), as_pending(state.in_flight[at].task));
    }
}

/// Counting the end of a task for a worker keeps the state well formed and
/// the loads accounted for.
pub proof fn lemma_with_result_counted(state: CoordinatorView, worker: WorkerId, status: TaskStatus)
    requires
        state.wf(),
    ensures
        state.with_result_counted(worker, status).wf(),
        state.balanced() ==> state.with_result_counted(worker, status).balanced(),
        state.with_result_counted(worker, status).completed() == state.completed(),
        forall|id: TaskId|
            state.with_result_counted(worker, status).knows(id) == state.knows(id),
{
    let after = state.with_result_counted(worker, status);
    let at = position_of_worker(state.workers, worker);
    lemma_position_of_worker(state.workers, worker);
    if at < state.workers.len() {
        lemma_update_keeps_positions(state.workers, at, state.workers[at].after_result(status));
        assert forall|i: int| 0 <= i < after.workers.len() implies (#[trigger] after.workers[i]).wf() by {
            assert(state.workers[i].wf());
        }
        assert forall|i: int| 0 <= i < after.in_flight.len() implies is_registered(
            after.workers,
            (#[trigger] after.in_flight[i]).worker_id,
        ) by {
            assert(is_registered(state.workers, state.in_flight[i].worker_id));
        }
        assert(after.completed() =~= state.completed());
        if state.balanced() {
            assert forall|i: int| 0 <= i < after.workers.len() implies (
            #[trigger] after.workers[i]).current_load == load_of(
                after.in_flight,
                after.workers[i].id,
            ) by {
                assert(state.workers[i].current_load == load_of(
                    state.in_flight,
                    state.workers[i].id,
                ));
            }
        }
    }
}

/// Taking a result keeps the state well formed and the loads accounted for.
/// The task of the result is completed by it if the result is taken and says
/// that the task is completed; no other task is completed by it, and none
/// ceases to be.
pub proof fn lemma_after_result(state: CoordinatorView, result: TaskResultView)
    requires
        state.wf(),
    ensures
        state.after_result(result).wf(),
        state.balanced() ==> state.after_result(result).balanced(),
        state.after_result(result).completed() == if state.takes(result) && result.status
            == TaskStatus::Completed {
            state.completed().insert(result.task_id)
        } else {
            state.completed()
        },
        state.takes(result) ==> !state.completed().contains(result.task_id),
{
    let at = position_in_flight(state.in_flight, result.task_id);
    lemma_position_in_flight(state.in_flight, result.task_id);
    if state.takes(result) {
        let entry = state.in_flight[at];
        assert(entry.task.retry_count <= entry.task.max_retries);
        lemma_without_in_flight(state, at);
        let taken_out = state.without_in_flight(at);
        lemma_with_result_counted(taken_out, entry.worker_id, result.status);
        let released = taken_out.with_result_counted(entry.worker_id, result.status);
        assert(!released.knows(result.task_id));
        if state.retries(result) {
            lemma_with_pending(released, as_retry(entry.task));
        } else {
            lemma_with_outcome(released, reported_outcome(entry.task, result));
        }
    }
}

/// Giving up an overdue task keeps the state well formed and the loads
/// accounted for, and completes no task.
pub proof fn lemma_after_expiry_of(state: CoordinatorView, at: int, now: Timestamp)
    requires
        state.wf(),
        0 <= at < state.pending.len(),
    ensures
        state.after_expiry_of(at, now).wf(),
        state.balanced() ==> state.after_expiry_of(at, now).balanced(),
        state.after_expiry_of(at, now).completed() == state.completed(),
{
    let task = state.pending[at];
    let kind = if some_compatible(state.workers, task) {
        FailureKind::DeadlineExceeded
    } else {
        FailureKind::NoWorker
    };
    lemma_without_pending(state, at);
    assert(task.retry_count <= task.max_retries);
    lemma_with_outcome(state.without_pending(at), expired_outcome(task, kind, now));
}

/// Cancelling the pending task at the head of the queue keeps the state well
/// formed and the loads accounted for, and completes no task.
pub proof fn lemma_cancel_pending(state: CoordinatorView, at: int, now: Timestamp)
    requires
        state.wf(),
        0 <= at < state.pending.len(),
    ensures
        state.without_pending(at).with_outcome(cancelled_outcome(state.pending[at], now)).wf(),
        state.balanced() ==> state.without_pending(at).with_outcome(
            cancelled_outcome(state.pending[at], now),
        ).balanced(),
        state.without_pending(at).with_outcome(
            cancelled_outcome(state.pending[at], now),
        ).completed() == state.completed(),
{
    lemma_without_pending(state, at);
    assert(state.pending[at].retry_count <= state.pending[at].max_retries);
    lemma_with_outcome(state.without_pending(at), cancelled_outcome(state.pending[at], now));
}

/// Cancelling an in-flight task without the word of its worker keeps the
/// state well formed and the loads accounted for, and completes no task.
pub proof fn lemma_after_forced_cancel(state: CoordinatorView, at: int, now: Timestamp)
    requires
        state.wf(),
        0 <= at < state.in_flight.len(),
    ensures
        state.after_forced_cancel(at, now).wf(),
        state.balanced() ==> state.after_forced_cancel(at, now).balanced(),
        state.after_forced_cancel(at, now).completed() == state.completed(),
{
    lemma_without_in_flight(state, at);
    assert(state.in_flight[at].task.retry_count <= state.in_flight[at].task.max_retries);
    lemma_with_outcome(
        state.without_in_flight(at),
        cancelled_outcome(state.in_flight[at].task, now),
    );
}

/// Taking one task back from a worker keeps the state well formed and the
/// loads accounted for, and leaves every worker where it was.
pub proof fn lemma_recall_one(state: CoordinatorView, at: int)
    requires
        state.wf(),
        0 <= at < state.in_flight.len(),
    ensures
        state.without_in_flight(at).with_pending(as_pending(state.in_flight[at].task)).wf(),
        state.balanced() ==> state.without_in_flight(at).with_pending(
            as_pending(state.in_flight[at].task),
        ).balanced(),
        state.without_in_flight(at).with_pending(
            as_pending(state.in_flight[at].task),
        ).completed() == state.completed(),
        forall|id: WorkerId|
            position_of_worker(
                state.without_in_flight(at).with_pending(
                    as_pending(state.in_flight[at].task),
                ).workers,
                id,
            ) == position_of_worker(state.workers, id),
        state.without_in_flight(at).with_pending(
            as_pending(state.in_flight[at].task),
        ).workers.len() == state.workers.len(),
{
    lemma_without_in_flight(state, at);
    assert(state.in_flight[at].task.retry_count <= state.in_flight[at].task.max_retries);
    lemma_with_pending(state.without_in_flight(at), as_pending(state.in_flight[at].task));
}

/// `first_held_by` finds the first task that the worker holds, and finds
/// none only if the worker holds none.
pub proof fn lemma_first_held_by(in_flight: Seq<InFlightView>, worker: WorkerId)
    ensures
        0 <= first_held_by(in_flight, worker) <= in_flight.len(),
        first_held_by(in_flight, worker) < in_flight.len() ==> in_flight[first_held_by(
            in_flight,
            worker,
        )].worker_id == worker,
        forall|i: int|
            0 <= i < first_held_by(in_flight, worker) ==> (#[trigger] in_flight[i]).worker_id
                != worker,
    decreases in_flight.len(),
{
    if in_flight.len() > 0 && in_flight[0].worker_id != worker {
        let rest = in_flight.drop_first();
        lemma_first_held_by(rest, worker);
        assert forall|i: int| 0 <= i < first_held_by(in_flight, worker) implies (
        #[trigger] in_flight[i]).worker_id != worker by {
            if i > 0 {
                assert(in_flight[i] == rest[i - 1]);
            }
        }
    }
}

/// Removing the record of a worker that holds no task keeps the state well
/// formed and the loads accounted for.
pub proof fn lemma_remove_worker(state: CoordinatorView, at: int)
    requires
        state.wf(),
        0 <= at < state.workers.len(),
        first_held_by(state.in_flight, state.workers[at].id) >= state.in_flight.len(),
    ensures
        (CoordinatorView { workers: state.workers.remove(at), ..state }).wf(),
        state.balanced() ==> (CoordinatorView {
            workers: state.workers.remove(at),
            ..state
        }).balanced(),
        (CoordinatorView { workers: state.workers.remove(at), ..state }).completed()
            == state.completed(),
{
    let after = CoordinatorView { workers: state.workers.remove(at), ..state };
    let gone = state.workers[at].id;
    lemma_first_held_by(state.in_flight, gone);
    assert forall|i: int, j: int| 0 <= i < j < after.workers.len() implies (
    #[trigger] after.workers[i]).id != (#[trigger] after.workers[j]).id by {
        let before_i = if i < at { i } else { i + 1 };
        let before_j = if j < at { j } else { j + 1 };
        assert(after.workers[i] == state.workers[before_i]);
        assert(after.workers[j] == state.workers[before_j]);
        assert(state.workers[before_i].id != state.workers[before_j].id);
    }
    assert forall|i: int| 0 <= i < after.workers.len() implies (#[trigger] after.workers[i]).wf() by {
        let before_i = if i < at { i } else { i + 1 };
        assert(after.workers[i] == state.workers[before_i]);
        assert(state.workers[before_i].wf());
    }
    assert forall|i: int| 0 <= i < after.in_flight.len() implies is_registered(
        after.workers,
        (#[trigger] after.in_flight[i]).worker_id,
    ) by {
        let holder = state.in_flight[i].worker_id;
        assert(is_registered(state.workers, holder));
        assert(holder != gone);
        lemma_position_of_worker(state.workers, holder);
        lemma_position_of_worker(after.workers, holder);
        let found = position_of_worker(state.workers, holder);
        let shifted = if found < at { found } else { found - 1 };
        assert(after.workers[shifted] == state.workers[found]);
        if position_of_worker(after.workers, holder) >= after.workers.len() {
            assert(after.workers[shifted].id != holder);
        }
    }
    assert(after.completed() =~= state.completed());
    if state.balanced() {
        assert forall|i: int| 0 <= i < after.workers.len() implies (
        #[trigger] after.workers[i]).current_load == load_of(
            after.in_flight,
            after.workers[i].id,
        ) by {
            let before_i = if i < at { i } else { i + 1 };
            assert(after.workers[i] == state.workers[before_i]);
            assert(state.workers[before_i].current_load == load_of(
                state.in_flight,
                state.workers[before_i].id,
            ));
        }
    }
}

/// Marking a task as picked up keeps the state well formed and the loads
/// accounted for.
pub proof fn lemma_after_pickup(state: CoordinatorView, id: TaskId)
    requires
        state.wf(),
    ensures
        state.after_pickup(id).wf(),
        state.balanced() ==> state.after_pickup(id).balanced(),
        state.after_pickup(id).completed() == state.completed(),
{
    let after = state.after_pickup(id);
    let at = position_in_flight(state.in_flight, id);
    lemma_position_in_flight(state.in_flight, id);
    if at < state.in_flight.len() {
        assert forall|i: int| 0 <= i < after.in_flight.len() implies {
            &&& (#[trigger] after.in_flight[i]).task.status == TaskStatus::Assigned
                || after.in_flight[i].task.status == TaskStatus::Processing
            &&& after.in_flight[i].task.retry_count <= after.in_flight[i].task.max_retries
            &&& is_registered(after.workers, after.in_flight[i].worker_id)
            &&& after.in_flight[i].task.id == state.in_flight[i].task.id
        } by {
            assert(is_registered(state.workers, state.in_flight[i].worker_id));
        }
        assert forall|i: int, j: int| 0 <= i < j < after.in_flight.len() implies (
        #[trigger] after.in_flight[i]).task.id != (#[trigger] after.in_flight[j]).task.id by {
            assert(state.in_flight[i].task.id != state.in_flight[j].task.id);
        }
        assert forall|i: int, j: int|
            0 <= i < after.pending.len() && 0 <= j < after.in_flight.len() implies (
        #[trigger] after.pending[i]).id != (#[trigger] after.in_flight[j]).task.id by {
            assert(state.pending[i].id != state.in_flight[j].task.id);
        }
        assert forall|i: int, j: int|
            0 <= i < after.in_flight.len() && 0 <= j < after.finished.len() implies (
        #[trigger] after.in_flight[i]).task.id != (#[trigger] after.finished[j]).result.task_id by {
            assert(state.in_flight[i].task.id != state.finished[j].result.task_id);
        }
        assert(after.completed() =~= state.completed());
        if state.balanced() {
            assert forall|i: int| 0 <= i < after.workers.len() implies (
            #[trigger] after.workers[i]).current_load == load_of(
                after.in_flight,
                after.workers[i].id,
            ) by {
                lemma_load_of_update(
                    state.in_flight,
                    at,
                    after.in_flight[at],
                    state.workers[i].id,
                );
                assert(state.workers[i].current_load == load_of(
                    state.in_flight,
                    state.workers[i].id,
                ));
            }
        }
    }
}

/// Asking for the cancellation of a task keeps the state well formed and the
/// loads accounted for, and completes no task.
pub proof fn lemma_after_cancel(state: CoordinatorView, id: TaskId, now: Timestamp)
    requires
        state.wf(),
    ensures
        state.after_cancel(id, now).wf(),
        state.balanced() ==> state.after_cancel(id, now).balanced(),
        state.after_cancel(id, now).completed() == state.completed(),
{
    let after = state.after_cancel(id, now);
    let waiting = position_of_pending(state.pending, id);
    let at = position_in_flight(state.in_flight, id);
    lemma_position_of_pending(state.pending, id);
    lemma_position_in_flight(state.in_flight, id);
    if waiting < state.pending.len() {
        lemma_cancel_pending(state, waiting, now);
    } else if at < state.in_flight.len() && state.in_flight[at].cancel_requested_at.is_none() {
        assert forall|i: int| 0 <= i < after.in_flight.len() implies {
            &&& (#[trigger] after.in_flight[i]).task.status == TaskStatus::Assigned
                || after.in_flight[i].task.status == TaskStatus::Processing
            &&& after.in_flight[i].task.retry_count <= after.in_flight[i].task.max_retries
            &&& is_registered(after.workers, after.in_flight[i].worker_id)
            &&& after.in_flight[i].task.id == state.in_flight[i].task.id
        } by {
            assert(is_registered(state.workers, state.in_flight[i].worker_id));
        }
        assert forall|i: int, j: int| 0 <= i < j < after.in_flight.len() implies (
        #[trigger] after.in_flight[i]).task.id != (#[trigger] after.in_flight[j]).task.id by {
            assert(state.in_flight[i].task.id != state.in_flight[j].task.id);
        }
        assert forall|i: int, j: int|
            0 <= i < after.pending.len() && 0 <= j < after.in_flight.len() implies (
        #[trigger] after.pending[i]).id != (#[trigger] after.in_flight[j]).task.id by {
            assert(state.pending[i].id != state.in_flight[j].task.id);
        }
        assert forall|i: int, j: int|
            0 <= i < after.in_flight.len() && 0 <= j < after.finished.len() implies (
        #[trigger] after.in_flight[i]).task.id != (#[trigger] after.finished[j]).result.task_id by {
            assert(state.in_flight[i].task.id != state.finished[j].result.task_id);
        }
        assert(after.completed() =~= state.completed());
        if state.balanced() {
            assert forall|i: int| 0 <= i < after.workers.len() implies (
            #[trigger] after.workers[i]).current_load == load_of(
                after.in_flight,
                after.workers[i].id,
            ) by {
                lemma_load_of_update(
                    state.in_flight,
                    at,
                    after.in_flight[at],
                    state.workers[i].id,
                );
                assert(state.workers[i].current_load == load_of(
                    state.in_flight,
                    state.workers[i].id,
                ));
            }
        }
    }
}

/// Handing an outcome over for good keeps the state well formed and the
/// loads accounted for.
pub proof fn lemma_after_take(state: CoordinatorView, id: TaskId)
    requires
        state.wf(),
    ensures
        state.after_take(id).wf(),
        state.balanced() ==> state.after_take(id).balanced(),
        state.after_take(id).completed() == state.completed().remove(id),
{
    let after = state.after_take(id);
    let at = position_of_outcome(state.finished, id);
    lemma_position_of_outcome(state.finished, id);
    if at < state.finished.len() {
        assert forall|i: int| 0 <= i < after.finished.len() implies {
            &&& (#[trigger] after.finished[i]).wf()
            &&& after.finished[i].result.task_id != id
        } by {
            let before_i = if i < at { i } else { i + 1 };
            assert(after.finished[i] == state.finished[before_i]);
            assert(state.finished[before_i].wf());
            if before_i < at {
                assert(state.finished[before_i].result.task_id
                    != state.finished[at].result.task_id);
            } else {
                assert(state.finished[at].result.task_id
                    != state.finished[before_i].result.task_id);
            }
        }
        assert forall|i: int, j: int| 0 <= i < j < after.finished.len() implies (
        #[trigger] after.finished[i]).result.task_id != (
        #[trigger] after.finished[j]).result.task_id by {
            let before_i = if i < at { i } else { i + 1 };
            let before_j = if j < at { j } else { j + 1 };
            assert(after.finished[i] == state.finished[before_i]);
            assert(after.finished[j] == state.finished[before_j]);
        }
        assert forall|i: int, j: int|
            0 <= i < after.pending.len() && 0 <= j < after.finished.len() implies (
        #[trigger] after.pending[i]).id != (#[trigger] after.finished[j]).result.task_id by {
            let before_j = if j < at { j } else { j + 1 };
            assert(after.finished[j] == state.finished[before_j]);
        }
        assert forall|i: int, j: int|
            0 <= i < after.in_flight.len() && 0 <= j < after.finished.len() implies (
        #[trigger] after.in_flight[i]).task.id != (#[trigger] after.finished[j]).result.task_id by {
            let before_j = if j < at { j } else { j + 1 };
            assert(after.finished[j] == state.finished[before_j]);
        }
        assert forall|other: TaskId| after.completed().contains(other) == state.completed().remove(
            id,
        ).contains(other) by {
            if after.completed().contains(other) {
                let i = choose|i: int|
                    0 <= i < after.finished.len() && (#[trigger] after.finished[i]).result.task_id
                        == other && after.finished[i].result.status == TaskStatus::Completed;
                let before_i = if i < at { i } else { i + 1 };
                assert(after.finished[i] == state.finished[before_i]);
            }
            if state.completed().contains(other) && other != id {
                let i = choose|i: int|
                    0 <= i < state.finished.len() && (#[trigger] state.finished[i]).result.task_id
                        == other && state.finished[i].result.status == TaskStatus::Completed;
                let after_i = if i < at { i } else { i - 1 };
                assert(after.finished[after_i] == state.finished[i]);
            }
        }
        assert(after.completed() =~= state.completed().remove(id));
    } else {
        assert forall|other: TaskId| state.completed().contains(other) implies other != id by {
            let i = choose|i: int|
                0 <= i < state.finished.len() && (#[trigger] state.finished[i]).result.task_id
                    == other && state.finished[i].result.status == TaskStatus::Completed;
        }
        assert(after.completed() =~= state.completed().remove(id));
    }
}

/// Taking back every task that a worker holds keeps the state well formed
/// and the loads accounted for, leaves every worker where it was, and leaves
/// the worker without tasks.
pub proof fn lemma_after_recall(state: CoordinatorView, worker: WorkerId)
    requires
        state.wf(),
    ensures
        state.after_recall(worker).wf(),
        state.balanced() ==> state.after_recall(worker).balanced(),
        state.after_recall(worker).completed() == state.completed(),
        state.after_recall(worker).workers.len() == state.workers.len(),
        forall|id: WorkerId|
            position_of_worker(state.after_recall(worker).workers, id) == position_of_worker(
                state.workers,
                id,
            ),
        first_held_by(state.after_recall(worker).in_flight, worker) >= state.after_recall(
            worker,
        ).in_flight.len(),
    decreases state.in_flight.len(),
{
    let at = first_held_by(state.in_flight, worker);
    lemma_first_held_by(state.in_flight, worker);
    if at < state.in_flight.len() {
        lemma_recall_one(state, at);
        lemma_after_recall(
            state.without_in_flight(at).with_pending(as_pending(state.in_flight[at].task)),
            worker,
        );
    }
}

/// Unregistering a worker keeps the state well formed and the loads
/// accounted for, and completes no task. Afterwards the worker is not
/// registered, and every other worker is registered if it was before.
pub proof fn lemma_after_unregister(state: CoordinatorView, worker: WorkerId)
    requires
        state.wf(),
    ensures
        state.after_unregister(worker).wf(),
        state.balanced() ==> state.after_unregister(worker).balanced(),
        state.after_unregister(worker).completed() == state.completed(),
        !is_registered(state.after_unregister(worker).workers, worker),
        forall|other: WorkerId|
            other != worker ==> is_registered(state.after_unregister(worker).workers, other)
                == is_registered(state.workers, other),
{
    let after = state.after_unregister(worker);
    lemma_position_of_worker(state.workers, worker);
    lemma_position_of_worker(after.workers, worker);
    if is_registered(state.workers, worker) {
        let recalled = state.after_recall(worker);
        lemma_after_recall(state, worker);
        let at = position_of_worker(recalled.workers, worker);
        lemma_position_of_worker(recalled.workers, worker);
        lemma_remove_worker(recalled, at);
        if is_registered(after.workers, worker) {
            let found = position_of_worker(after.workers, worker);
            let before = if found < at { found } else { found + 1 };
            assert(after.workers[found] == recalled.workers[before]);
            if before < at {
                assert(recalled.workers[before].id != recalled.workers[at].id);
            } else {
                assert(recalled.workers[at].id != recalled.workers[before].id);
            }
        }
        assert forall|other: WorkerId| other != worker implies is_registered(
            after.workers,
            other,
        ) == is_registered(state.workers, other) by {
            lemma_position_of_worker(recalled.workers, other);
            lemma_position_of_worker(after.workers, other);
            let was = position_of_worker(recalled.workers, other);
            let is = position_of_worker(after.workers, other);
            if was < recalled.workers.len() {
                let shifted = if was < at { was } else { was - 1 };
                assert(after.workers[shifted] == recalled.workers[was]);
                if is >= after.workers.len() {
                    assert(after.workers[shifted].id != other);
                }
            }
            if is < after.workers.len() {
                let before = if is < at { is } else { is + 1 };
                assert(after.workers[is] == recalled.workers[before]);
                if was >= recalled.workers.len() {
                    assert(recalled.workers[before].id != other);
                }
            }
        }
    }
}

/// A worker that is not registered is not registered after another has been
/// unregistered.
pub proof fn lemma_unregister_keeps_absent(state: CoordinatorView, worker: WorkerId, other: WorkerId)
    requires
        state.wf(),
        !is_registered(state.workers, other),
    ensures
        !is_registered(state.after_unregister(worker).workers, other),
{
    lemma_after_unregister(state, worker);
}

} // verus!
