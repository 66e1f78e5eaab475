//! What holds of the scheduler and of the coordinator whatever they are asked
//! to do.

use crate::invariants::lemma_after_assignment;
use crate::registry::{is_registered, position_of_worker, WorkerRecordView};
use crate::scheduler::{
    best_worker, capability_names, compatible, covers, eligible, lemma_best_among,
    required_names, supports,
};
use crate::state::{
    lemma_position_in_flight, position_in_flight, position_of_outcome, position_of_pending,
    CoordinatorView, FailureKind, InFlightView,
};
use crate::task::{TaskResultView, TaskView};
use crate::transitions::free_capacity;
use crate::types::{TaskId, TaskStatus, Timestamp};
use vstd::prelude::*;

verus! {

/// A worker that lacks a capability that the task requires is never given
/// the task, whatever other workers there are.
pub proof fn lemma_uncovered_worker_is_never_chosen(
    workers: Seq<WorkerRecordView>,
    task: TaskView,
    worker: int,
)
    requires
        0 <= worker < workers.len(),
        !covers(workers[worker], task),
    ensures
        best_worker(workers, task) != Some(worker),
{
    lemma_best_among(workers, task, workers.len() as int);
}

/// A worker that takes no task at a time is never given one.
pub proof fn lemma_worker_without_capacity_is_never_chosen(
    workers: Seq<WorkerRecordView>,
    task: TaskView,
    worker: int,
)
    requires
        0 <= worker < workers.len(),
        workers[worker].max_concurrent_tasks == 0,
    ensures
        best_worker(workers, task) != Some(worker),
{
    lemma_best_among(workers, task, workers.len() as int);
}

/// The worker that is given a task is the best of the eligible workers: it
/// is eligible, and every other eligible worker has a lower score, or the
/// same score and a higher load, or the same score and load and a higher
/// identifier, or the same identifier.
pub proof fn lemma_chosen_worker_is_best(workers: Seq<WorkerRecordView>, task: TaskView, other: int)
    requires
        0 <= other < workers.len(),
        eligible(workers[other], task),
    ensures
        best_worker(workers, task).is_some(),
        eligible(workers[best_worker(workers, task).unwrap()], task),
        !crate::scheduler::outranks(
            workers[other],
            workers[best_worker(workers, task).unwrap()],
            task,
        ),
{
    lemma_best_among(workers, task, workers.len() as int);
}

/// A task that requires no capability finds a worker as soon as one worker
/// that supports its kind is in service and has capacity left.
pub proof fn lemma_task_without_requirements_finds_worker(
    workers: Seq<WorkerRecordView>,
    task: TaskView,
    worker: int,
)
    requires
        task.requirements.required_capabilities.len() == 0,
        0 <= worker < workers.len(),
        workers[worker].has_capacity(),
        workers[worker].status.in_service(),
        supports(workers[worker], task.task_type),
    ensures
        best_worker(workers, task).is_some(),
{
    assert(required_names(task) =~= Set::<Seq<char>>::empty());
    assert(eligible(workers[worker], task));
    lemma_best_among(workers, task, workers.len() as int);
}

/// The workers in service have at least as much capacity left, all
/// together, as any one of them.
proof fn lemma_free_capacity_covers(workers: Seq<WorkerRecordView>, worker: int)
    requires
        0 <= worker < workers.len(),
        workers[worker].has_capacity(),
        workers[worker].status.in_service(),
    ensures
        free_capacity(workers) >= workers[worker].max_concurrent_tasks
            - workers[worker].current_load,
    decreases workers.len(),
{
    if worker < workers.len() - 1 {
        assert(workers.drop_last()[worker] == workers[worker]);
        lemma_free_capacity_covers(workers.drop_last(), worker);
    }
}

/// One more in-flight task leaves the others where they are.
proof fn lemma_position_in_flight_push(in_flight: Seq<InFlightView>, entry: InFlightView, id: TaskId)
    requires
        position_in_flight(in_flight, id) < in_flight.len(),
    ensures
        position_in_flight(in_flight.push(entry), id) == position_in_flight(in_flight, id),
    decreases in_flight.len(),
{
    if in_flight.len() > 0 && in_flight[0].task.id != id {
        assert(in_flight.push(entry).drop_first() =~= in_flight.drop_first().push(entry));
        lemma_position_in_flight_push(in_flight.drop_first(), entry, id);
    }
}

/// A task that is in flight stays in flight, as it is, through the rest of a
/// round of scheduling.
pub proof fn lemma_dispatch_keeps_in_flight(
    state: CoordinatorView,
    now: Timestamp,
    cursor: int,
    budget: nat,
    id: TaskId,
)
    requires
        state.wf(),
        state.is_in_flight(id),
    ensures
        state.after_dispatch(now, cursor, budget).is_in_flight(id),
        state.after_dispatch(now, cursor, budget).wf(),
        state.after_dispatch(now, cursor, budget).status_of(id) == state.status_of(id),
    decreases budget,
{
    if budget == 0 || cursor < 0 || cursor >= state.pending.len() {
    } else {
        match best_worker(state.workers, state.pending[cursor]) {
            Some(worker) => {
                lemma_best_among(state.workers, state.pending[cursor], state.workers.len() as int);
                lemma_after_assignment(state, cursor, worker, now);
                let next = state.after_assignment(cursor, worker, now);
                lemma_position_in_flight_push(
                    state.in_flight,
                    state.assignment(cursor, worker, now),
                    id,
                );
                crate::rules::lemma_one_place(state, id);
                crate::rules::lemma_one_place(next, id);
                let at = position_in_flight(state.in_flight, id);
                lemma_position_in_flight(state.in_flight, id);
                assert(next.is_in_flight(id));
                assert(next.in_flight[at] == state.in_flight[at]);
                assert(next.status_of(id) == state.status_of(id));
                lemma_dispatch_keeps_in_flight(next, now, cursor, (budget - 1) as nat, id);
            },
            None => {
                lemma_dispatch_keeps_in_flight(state, now, cursor + 1, (budget - 1) as nat, id);
            },
        }
    }
}

/// The task that has just been given to a worker is assigned.
proof fn lemma_assigned_after_assignment(
    state: CoordinatorView,
    queue_index: int,
    worker: int,
    now: Timestamp,
)
    requires
        state.wf(),
        0 <= queue_index < state.pending.len(),
        0 <= worker < state.workers.len(),
        state.workers[worker].has_capacity(),
    ensures
        state.after_assignment(queue_index, worker, now).wf(),
        state.after_assignment(queue_index, worker, now).is_in_flight(
            state.pending[queue_index].id,
        ),
        state.after_assignment(queue_index, worker, now).status_of(state.pending[queue_index].id)
            == Some(TaskStatus::Assigned),
{
    let task = state.pending[queue_index];
    lemma_after_assignment(state, queue_index, worker, now);
    let next = state.after_assignment(queue_index, worker, now);
    let entry = state.assignment(queue_index, worker, now);
    assert(next.in_flight[state.in_flight.len() as int] == entry);
    lemma_position_in_flight(next.in_flight, task.id);
    let found = position_in_flight(next.in_flight, task.id);
    if found >= next.in_flight.len() {
        assert(next.in_flight[state.in_flight.len() as int].task.id != task.id);
    }
    if found < state.in_flight.len() {
        assert(state.pending[queue_index].id != state.in_flight[found].task.id);
    }
    crate::rules::lemma_one_place(next, task.id);
}

/// A round of scheduling that has come to `cursor` and tries `budget` more
/// tasks assigns the task at `position` if that task requires no capability
/// and a worker in service that supports its kind has room for it and for
/// every task between the cursor and it.
proof fn lemma_dispatch_reaches(
    state: CoordinatorView,
    now: Timestamp,
    cursor: int,
    budget: nat,
    position: int,
    worker: int,
)
    requires
        state.wf(),
        0 <= cursor <= position < state.pending.len(),
        state.pending[position].requirements.required_capabilities.len() == 0,
        0 <= worker < state.workers.len(),
        state.workers[worker].status.in_service(),
        supports(state.workers[worker], state.pending[position].task_type),
        state.workers[worker].max_concurrent_tasks - state.workers[worker].current_load > position
            - cursor,
        budget > position - cursor,
    ensures
        state.after_dispatch(now, cursor, budget).status_of(state.pending[position].id) == Some(
            TaskStatus::Assigned,
        ),
    decreases budget,
{
    let task = state.pending[position];
    let tried = state.pending[cursor];
    lemma_best_among(state.workers, tried, state.workers.len() as int);
    match best_worker(state.workers, tried) {
        Some(chosen) => {
            lemma_assigned_after_assignment(state, cursor, chosen, now);
            lemma_after_assignment(state, cursor, chosen, now);
            let next = state.after_assignment(cursor, chosen, now);
            if position == cursor {
                lemma_dispatch_keeps_in_flight(next, now, cursor, (budget - 1) as nat, task.id);
            } else {
                assert(next.pending[position - 1] == task);
                assert(next.workers[worker].capabilities == state.workers[worker].capabilities);
                assert(supports(next.workers[worker], task.task_type));
                lemma_dispatch_reaches(next, now, cursor, (budget - 1) as nat, position - 1, worker);
            }
        },
        None => {
            if position == cursor {
                lemma_task_without_requirements_finds_worker(state.workers, task, worker);
            } else {
                lemma_dispatch_reaches(state, now, cursor + 1, (budget - 1) as nat, position, worker);
            }
        },
    }
}

/// A pending task that requires no capability is assigned within one round
/// of scheduling if a worker in service that supports its kind has room for
/// it and for every task before it in the queue. For the task at the head
/// of the queue that is a worker with capacity left.
pub proof fn lemma_task_without_requirements_is_assigned(
    state: CoordinatorView,
    now: Timestamp,
    position: int,
    worker: int,
)
    requires
        state.wf(),
        0 <= position < state.pending.len(),
        state.pending[position].requirements.required_capabilities.len() == 0,
        0 <= worker < state.workers.len(),
        state.workers[worker].status.in_service(),
        supports(state.workers[worker], state.pending[position].task_type),
        state.workers[worker].max_concurrent_tasks - state.workers[worker].current_load
            > position,
    ensures
        state.after_tick(now).status_of(state.pending[position].id) == Some(TaskStatus::Assigned),
{
    lemma_free_capacity_covers(state.workers, worker);
    lemma_dispatch_reaches(state, now, 0, state.dispatch_budget(), position, worker);
}

/// Whether a worker is compatible with a task goes by the capabilities of the
/// worker and by the kind and the requirements of the task alone.
proof fn lemma_compatible_by_capabilities(
    worker: WorkerRecordView,
    other: WorkerRecordView,
    task: TaskView,
    same: TaskView,
)
    requires
        worker.capabilities == other.capabilities,
        task.task_type == same.task_type,
        task.requirements == same.requirements,
    ensures
        compatible(worker, task) == compatible(other, same),
{
    assert(capability_names(worker) =~= capability_names(other));
    assert(required_names(task) == required_names(same));
}

/// A round of scheduling leaves the tasks that are in flight where they are
/// and puts the tasks that it assigns behind them.
pub proof fn lemma_dispatch_extends_in_flight(
    state: CoordinatorView,
    now: Timestamp,
    cursor: int,
    budget: nat,
)
    requires
        state.wf(),
    ensures
        state.after_dispatch(now, cursor, budget).wf(),
        state.after_dispatch(now, cursor, budget).in_flight.len() >= state.in_flight.len(),
        state.after_dispatch(now, cursor, budget).in_flight.subrange(
            0,
            state.in_flight.len() as int,
        ) == state.in_flight,
        state.after_dispatch(now, cursor, budget).workers.len() == state.workers.len(),
    decreases budget,
{
    let after = state.after_dispatch(now, cursor, budget);
    if budget == 0 || cursor < 0 || cursor >= state.pending.len() {
        assert(after.in_flight.subrange(0, state.in_flight.len() as int) =~= state.in_flight);
    } else {
        match best_worker(state.workers, state.pending[cursor]) {
            Some(chosen) => {
                lemma_best_among(state.workers, state.pending[cursor], state.workers.len() as int);
                lemma_after_assignment(state, cursor, chosen, now);
                let next = state.after_assignment(cursor, chosen, now);
                lemma_dispatch_extends_in_flight(next, now, cursor, (budget - 1) as nat);
                assert(after.in_flight.subrange(0, state.in_flight.len() as int)
                    =~= after.in_flight.subrange(0, next.in_flight.len() as int).subrange(
                    0,
                    state.in_flight.len() as int,
                ));
                assert(next.in_flight.subrange(0, state.in_flight.len() as int)
                    =~= state.in_flight);
            },
            None => {
                lemma_dispatch_extends_in_flight(state, now, cursor + 1, (budget - 1) as nat);
            },
        }
    }
}

/// Whatever a round of scheduling puts in flight, it gives to a worker that
/// is compatible with it: the worker that holds the task is registered, has
/// every capability that the task requires, and supports the kind of the
/// task. A worker that lacks a required capability is given nothing.
pub proof fn lemma_dispatch_goes_to_compatible_workers(
    state: CoordinatorView,
    now: Timestamp,
    cursor: int,
    budget: nat,
    entry: int,
)
    requires
        state.wf(),
        state.in_flight.len() <= entry < state.after_dispatch(now, cursor, budget).in_flight.len(),
    ensures
        is_registered(
            state.workers,
            state.after_dispatch(now, cursor, budget).in_flight[entry].worker_id,
        ),
        compatible(
            state.workers[position_of_worker(
                state.workers,
                state.after_dispatch(now, cursor, budget).in_flight[entry].worker_id,
            )],
            state.after_dispatch(now, cursor, budget).in_flight[entry].task,
        ),
    decreases budget,
{
    let after = state.after_dispatch(now, cursor, budget);
    if budget == 0 || cursor < 0 || cursor >= state.pending.len() {
    } else {
        let tried = state.pending[cursor];
        match best_worker(state.workers, tried) {
            Some(chosen) => {
                lemma_best_among(state.workers, tried, state.workers.len() as int);
                lemma_after_assignment(state, cursor, chosen, now);
                let next = state.after_assignment(cursor, chosen, now);
                let record = state.workers[chosen].after_assignment();
                lemma_dispatch_extends_in_flight(next, now, cursor, (budget - 1) as nat);
                if entry == state.in_flight.len() {
                    assert(after.in_flight.subrange(0, next.in_flight.len() as int)[entry]
                        == after.in_flight[entry]);
                    assert(after.in_flight[entry] == state.assignment(cursor, chosen, now));
                    crate::registry::lemma_position_of_distinct(state.workers, chosen);
                    lemma_compatible_by_capabilities(
                        state.workers[chosen],
                        state.workers[chosen],
                        tried,
                        after.in_flight[entry].task,
                    );
                } else {
                    lemma_dispatch_goes_to_compatible_workers(
                        next,
                        now,
                        cursor,
                        (budget - 1) as nat,
                        entry,
                    );
                    crate::rules::lemma_update_keeps_positions(state.workers, chosen, record);
                    let id = after.in_flight[entry].worker_id;
                    let holder = position_of_worker(state.workers, id);
                    crate::registry::lemma_position_of_worker(state.workers, id);
                    assert(position_of_worker(next.workers, id) == holder);
                    assert(next.workers[holder].capabilities == state.workers[holder].capabilities);
                    lemma_compatible_by_capabilities(
                        next.workers[holder],
                        state.workers[holder],
                        after.in_flight[entry].task,
                        after.in_flight[entry].task,
                    );
                }
            },
            None => {
                lemma_dispatch_goes_to_compatible_workers(
                    state,
                    now,
                    cursor + 1,
                    (budget - 1) as nat,
                    entry,
                );
            },
        }
    }
}

/// While the loads are accounted for, a worker that takes no task at a time
/// holds none.
pub proof fn lemma_worker_without_capacity_holds_nothing(
    state: CoordinatorView,
    worker: int,
    entry: int,
)
    requires
        state.wf(),
        state.balanced(),
        0 <= worker < state.workers.len(),
        state.workers[worker].max_concurrent_tasks == 0,
        0 <= entry < state.in_flight.len(),
    ensures
        state.in_flight[entry].worker_id != state.workers[worker].id,
{
    assert(state.workers[worker].wf());
    crate::state::lemma_load_of_present(state.in_flight, entry);
}

/// In a well-formed state no task has been retried more often than it may
/// be, and a task that has failed for good has used up its retries, unless it
/// failed for want of a worker or of time.
pub proof fn lemma_retries_within_limits(state: CoordinatorView)
    requires
        state.wf(),
    ensures
        forall|i: int|
            0 <= i < state.pending.len() ==> (#[trigger] state.pending[i]).retry_count
                <= state.pending[i].max_retries,
        forall|i: int|
            0 <= i < state.in_flight.len() ==> (#[trigger] state.in_flight[i]).task.retry_count
                <= state.in_flight[i].task.max_retries,
        forall|i: int|
            0 <= i < state.finished.len() ==> (#[trigger] state.finished[i]).retry_count
                <= state.finished[i].max_retries,
        forall|i: int|
            0 <= i < state.finished.len() && (#[trigger] state.finished[i]).result.status
                == TaskStatus::Failed ==> state.finished[i].retry_count
                == state.finished[i].max_retries || state.finished[i].failure == Some(
                FailureKind::NoWorker,
            ) || state.finished[i].failure == Some(FailureKind::DeadlineExceeded),
{
    assert forall|i: int| 0 <= i < state.finished.len() implies (
    #[trigger] state.finished[i]).retry_count <= state.finished[i].max_retries by {
        assert(state.finished[i].wf());
    }
    assert forall|i: int|
        0 <= i < state.finished.len() && (#[trigger] state.finished[i]).result.status
            == TaskStatus::Failed implies state.finished[i].retry_count
        == state.finished[i].max_retries || state.finished[i].failure == Some(
        FailureKind::NoWorker,
    ) || state.finished[i].failure == Some(FailureKind::DeadlineExceeded) by {
        assert(state.finished[i].wf());
    }
}

/// In a well-formed state a pending task has no worker and a task in flight
/// has exactly one, which is registered.
pub proof fn lemma_in_flight_has_one_worker(state: CoordinatorView, id: TaskId)
    requires
        state.wf(),
    ensures
        state.is_pending(id) ==> !state.is_in_flight(id),
        state.is_in_flight(id) ==> is_registered(
            state.workers,
            state.in_flight[position_in_flight(state.in_flight, id)].worker_id,
        ),
{
    crate::rules::lemma_one_place(state, id);
    lemma_position_in_flight(state.in_flight, id);
}

/// A result for a task that is not in flight, as one that comes late or
/// twice for a task that has ended, changes nothing: the record of the task
/// stays as it is, and no worker's load or count changes.
pub proof fn lemma_late_result_changes_nothing(state: CoordinatorView, result: TaskResultView)
    requires
        state.wf(),
        state.is_finished(result.task_id) || !state.is_in_flight(result.task_id),
    ensures
        state.after_result(result) == state,
{
    crate::rules::lemma_one_place(state, result.task_id);
}

/// A result that is taken releases the worker: the task is no longer in
/// flight, the load of the worker that held it is one lower, its count of
/// successes or of failures is one higher as the result says, and every
/// other worker is as it was.
pub proof fn lemma_result_releases_worker(state: CoordinatorView, result: TaskResultView)
    requires
        state.wf(),
        state.takes(result),
    ensures
        ({
            let at = position_in_flight(state.in_flight, result.task_id);
            let holder = position_of_worker(state.workers, state.in_flight[at].worker_id);
            let after = state.after_result(result);
            &&& after.in_flight == state.in_flight.remove(at)
            &&& !after.is_in_flight(result.task_id)
            &&& 0 <= holder < state.workers.len()
            &&& after.workers == state.workers.update(
                holder,
                state.workers[holder].after_release().after_result(result.status),
            )
        }),
{
    let at = position_in_flight(state.in_flight, result.task_id);
    let entry = state.in_flight[at];
    let holder = position_of_worker(state.workers, entry.worker_id);
    lemma_position_in_flight(state.in_flight, result.task_id);
    crate::registry::lemma_position_of_worker(state.workers, entry.worker_id);
    assert(is_registered(state.workers, entry.worker_id));
    crate::rules::lemma_without_in_flight(state, at);
    crate::invariants::lemma_after_result(state, result);
    let after = state.after_result(result);
    assert(after.workers =~= state.workers.update(
        holder,
        state.workers[holder].after_release().after_result(result.status),
    ));
    let taken_out = state.without_in_flight(at);
    crate::invariants::lemma_with_result_counted(taken_out, entry.worker_id, result.status);
    let released = taken_out.with_result_counted(entry.worker_id, result.status);
    crate::rules::lemma_unknown(released, result.task_id);
    lemma_position_in_flight(after.in_flight, result.task_id);
}

/// When the only task in flight is completed, and the loads are accounted
/// for, nothing is in flight any more, the worker that held the task has no
/// load, and its count of successes is one higher.
pub proof fn lemma_only_task_completed(state: CoordinatorView, result: TaskResultView)
    requires
        state.wf(),
        state.balanced(),
        state.in_flight.len() == 1,
        state.takes(result),
        result.status == TaskStatus::Completed,
    ensures
        ({
            let holder = position_of_worker(state.workers, state.in_flight[0].worker_id);
            let after = state.after_result(result);
            &&& after.in_flight.len() == 0
            &&& 0 <= holder < state.workers.len()
            &&& after.workers[holder].current_load == 0
            &&& state.workers[holder].success_count < u32::MAX
                ==> after.workers[holder].success_count == state.workers[holder].success_count + 1
            &&& after.workers[holder].error_count == state.workers[holder].error_count
        }),
{
    lemma_position_in_flight(state.in_flight, result.task_id);
    lemma_result_releases_worker(state, result);
    let holder = position_of_worker(state.workers, state.in_flight[0].worker_id);
    crate::registry::lemma_position_of_worker(state.workers, state.in_flight[0].worker_id);
    assert(state.workers[holder].current_load == crate::state::load_of(
        state.in_flight,
        state.workers[holder].id,
    ));
    assert(state.in_flight.drop_last() =~= Seq::<InFlightView>::empty());
    assert(crate::state::load_of(state.in_flight.drop_last(), state.workers[holder].id) == 0);
}

/// A failed result that is taken gives the task another attempt while it has
/// retries left: the task waits again, pending, with one retry more. Without
/// retries left the task has ended: its outcome is on record with the
/// retries as they were and with the result as it came.
pub proof fn lemma_failed_result_retries_or_ends(state: CoordinatorView, result: TaskResultView)
    requires
        state.wf(),
        state.takes(result),
        result.status == TaskStatus::Failed,
    ensures
        ({
            let task = state.in_flight[position_in_flight(state.in_flight, result.task_id)].task;
            let after = state.after_result(result);
            &&& task.retry_count < task.max_retries ==> after.is_pending(result.task_id)
                && after.pending[position_of_pending(after.pending, result.task_id)]
                == crate::rules::as_retry(task) && !after.is_finished(result.task_id)
            &&& task.retry_count >= task.max_retries ==> after.is_finished(result.task_id)
                && after.finished[position_of_outcome(after.finished, result.task_id)]
                == crate::transitions::reported_outcome(task, result) && !after.is_pending(
                result.task_id,
            )
        }),
{
    let id = result.task_id;
    let at = position_in_flight(state.in_flight, id);
    let entry = state.in_flight[at];
    let task = entry.task;
    lemma_position_in_flight(state.in_flight, id);
    crate::rules::lemma_without_in_flight(state, at);
    let taken_out = state.without_in_flight(at);
    crate::invariants::lemma_with_result_counted(taken_out, entry.worker_id, result.status);
    let released = taken_out.with_result_counted(entry.worker_id, result.status);
    crate::rules::lemma_unknown(released, id);
    crate::invariants::lemma_after_result(state, result);
    let after = state.after_result(result);
    crate::rules::lemma_one_place(after, id);
    if task.retry_count < task.max_retries {
        let again = crate::rules::as_retry(task);
        let place = crate::queue::insertion_point(released.pending, again);
        crate::queue::lemma_insertion_point(released.pending, again);
        assert(after.pending[place] == again);
        crate::state::lemma_position_of_pending(after.pending, id);
        let found = position_of_pending(after.pending, id);
        if found < place {
            assert(after.pending[found] == released.pending[found]);
        }
    } else {
        let outcome = crate::transitions::reported_outcome(task, result);
        assert(after.finished[released.finished.len() as int] == outcome);
        crate::state::lemma_position_of_outcome(after.finished, id);
        let found = position_of_outcome(after.finished, id);
        if found < released.finished.len() {
            assert(after.finished[found] == released.finished[found]);
        }
    }
}

} // verus!
