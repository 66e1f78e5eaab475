//! The coordinator: the front door of the swarm.
//!
//! The coordinator owns the worker registry, the queue of pending tasks, the
//! table of tasks in flight and the record of the tasks that have ended. It
//! does nothing by itself: whoever runs it submits tasks, reports heartbeats
//! and results, and calls for a round of scheduling when there may be work.

use crate::channel::{another_sender, try_receive, try_send, unbounded_queue, SendFailure};
use crate::invariants::{
    lemma_after_assignment, lemma_after_cancel, lemma_after_expiry_of, lemma_after_forced_cancel,
    lemma_after_heartbeat, lemma_after_pickup, lemma_after_register, lemma_after_result,
    lemma_after_rollback, lemma_after_submit, lemma_after_take, lemma_cancel_pending,
    lemma_recall_one, lemma_remove_worker, lemma_unregister_keeps_absent,
};
use crate::queue::{enqueue, task_views};
use crate::registry::{
    is_registered, lemma_position_of_distinct, lemma_position_of_worker, position_of_worker,
    record_views, InboxMessage, RegisterError, WorkerRecord, WorkerRecordView, WorkerRegistry,
};
use crate::rules::lemma_without_in_flight;
use crate::scheduler::{
    compatible, covers_requirements, lemma_best_among, select_worker, supports_kind,
};
use crate::state::{
    in_flight_views, outcome_views, position_in_flight, position_of_outcome, position_of_pending,
    CoordinatorView, FailureKind, InFlightEntry, InFlightView, TaskOutcome, TaskOutcomeView,
};
use crate::task::{Task, TaskResult, TaskResultView, TaskView};
use crate::textmap::TextMap;
use crate::transitions::{
    cancellation_overdue, first_held_by, first_overdue, first_stale, first_unanswered,
    free_capacity, overdue, some_compatible, SubmitError,
};
use crate::types::{TaskId, TaskStatus, Timestamp, WorkerId};
use crate::worker::{WorkerConfig, WorkerHealth};
use tokio::sync::mpsc::{Receiver, Sender, UnboundedReceiver, UnboundedSender};
use vstd::prelude::*;

verus! {

/// The coordinator of a swarm.
pub struct SwarmCoordinator {
    registry: WorkerRegistry,
    pending: Vec<Task>,
    in_flight: Vec<InFlightEntry>,
    finished: Vec<TaskOutcome>,
    accepting: bool,
    tasks_processed: u64,
    tasks_failed: u64,
    processing_time_ms: u64,
    result_sender: UnboundedSender<TaskResult>,
    result_receiver: UnboundedReceiver<TaskResult>,
}

impl View for SwarmCoordinator {
    type V = CoordinatorView;

    closed spec fn view(&self) -> CoordinatorView {
        CoordinatorView {
            workers: self.registry@,
            pending: task_views(self.pending@),
            in_flight: in_flight_views(self.in_flight@),
            finished: outcome_views(self.finished@),
            accepting: self.accepting,
            tasks_processed: self.tasks_processed,
            tasks_failed: self.tasks_failed,
            processing_time_ms: self.processing_time_ms,
        }
    }
}

impl SwarmCoordinator {
    /// The coordinator is well formed. Every coordinator is: its parts can
    /// only be changed through the operations below, which all keep it so.
    pub closed spec fn wf(&self) -> bool {
        self.registry.wf() && self@.wf()
    }

    /// The state of a well-formed coordinator is well formed, and every
    /// worker has its inbox.
    pub proof fn lemma_wf(&self)
        requires
            self.wf(),
        ensures
            self@.wf(),
            self.inboxes().len() == self@.workers.len(),
    {
        self.registry.lemma_wf();
    }

    /// A coordinator without workers and without tasks.
    pub fn new() -> (coordinator: SwarmCoordinator)
        ensures
            coordinator.wf(),
            coordinator@ == CoordinatorView::initial(),
            coordinator@.balanced(),
    {
        let (result_sender, result_receiver) = unbounded_queue::<TaskResult>();
        let coordinator = SwarmCoordinator {
            registry: WorkerRegistry::new(),
            pending: Vec::new(),
            in_flight: Vec::new(),
            finished: Vec::new(),
            accepting: true,
            tasks_processed: 0,
            tasks_failed: 0,
            processing_time_ms: 0,
            result_sender,
            result_receiver,
        };
        assert(coordinator@.pending =~= Seq::<TaskView>::empty());
        assert(coordinator@.in_flight =~= Seq::<InFlightView>::empty());
        assert(coordinator@.finished =~= Seq::<TaskOutcomeView>::empty());
        coordinator
    }

    /// Number of registered workers.
    pub fn worker_count(&self) -> (n: usize)
        ensures
            n == self@.workers.len(),
    {
        self.registry.len()
    }

    /// Number of tasks that wait for a worker.
    pub fn pending_tasks(&self) -> (n: usize)
        ensures
            n == self@.pending.len(),
    {
        self.pending.len()
    }

    /// Number of tasks that workers hold.
    pub fn in_flight_tasks(&self) -> (n: usize)
        ensures
            n == self@.in_flight.len(),
    {
        self.in_flight.len()
    }

    /// Whether new tasks are accepted.
    pub fn is_accepting(&self) -> (b: bool)
        ensures
            b == self@.accepting,
    {
        self.accepting
    }

    /// A copy of the record of every worker, in the order of registration.
    pub fn snapshot(&self) -> (records: Vec<WorkerRecord>)
        ensures
            record_views(records@) == self@.workers,
    {
        self.registry.snapshot()
    }

    /// The sending ends of the inboxes of the workers, each where the record
    /// of its worker stands.
    pub closed spec fn inboxes(&self) -> Seq<Sender<InboxMessage>> {
        self.registry.inboxes()
    }

    /// The sending end of the coordinator's own queue of results.
    pub closed spec fn result_queue(&self) -> UnboundedSender<TaskResult> {
        self.result_sender
    }

    /// A handle through which results can be put into the coordinator's own
    /// queue of results, from where [`SwarmCoordinator::ingest_available`]
    /// takes them: another handle on the sending end of that queue.
    pub fn get_result_sender(&self) -> (sender: UnboundedSender<TaskResult>)
        ensures
            sender == self.result_queue(),
    {
        another_sender(&self.result_sender)
    }

    fn find_pending(&self, id: TaskId) -> (at: usize)
        ensures
            at == position_of_pending(self@.pending, id),
            at <= self.pending@.len(),
    {
        let ghost views = task_views(self.pending@);
        let mut at: usize = 0;
        assert(views.skip(0) =~= views);
        while at < self.pending.len() && self.pending[at].id != id
            invariant
                at <= self.pending@.len(),
                views == task_views(self.pending@),
                position_of_pending(views, id) == at + position_of_pending(
                    views.skip(at as int),
                    id,
                ),
            decreases self.pending@.len() - at,
        {
            proof {
                let rest = views.skip(at as int);
                assert(rest[0] == views[at as int]);
                assert(rest.drop_first() =~= views.skip(at + 1));
            }
            at = at + 1;
        }
        proof {
            let rest = views.skip(at as int);
            if at < self.pending@.len() {
                assert(rest[0] == views[at as int]);
            }
        }
        at
    }

    fn find_in_flight(&self, id: TaskId) -> (at: usize)
        ensures
            at == position_in_flight(self@.in_flight, id),
            at <= self.in_flight@.len(),
    {
        let ghost views = in_flight_views(self.in_flight@);
        let mut at: usize = 0;
        assert(views.skip(0) =~= views);
        while at < self.in_flight.len() && self.in_flight[at].task.id != id
            invariant
                at <= self.in_flight@.len(),
                views == in_flight_views(self.in_flight@),
                position_in_flight(views, id) == at + position_in_flight(
                    views.skip(at as int),
                    id,
                ),
            decreases self.in_flight@.len() - at,
        {
            proof {
                let rest = views.skip(at as int);
                assert(rest[0] == views[at as int]);
                assert(rest.drop_first() =~= views.skip(at + 1));
            }
            at = at + 1;
        }
        proof {
            let rest = views.skip(at as int);
            if at < self.in_flight@.len() {
                assert(rest[0] == views[at as int]);
            }
        }
        at
    }

    fn find_outcome(&self, id: TaskId) -> (at: usize)
        ensures
            at == position_of_outcome(self@.finished, id),
            at <= self.finished@.len(),
    {
        let ghost views = outcome_views(self.finished@);
        let mut at: usize = 0;
        assert(views.skip(0) =~= views);
        while at < self.finished.len() && self.finished[at].result.task_id != id
            invariant
                at <= self.finished@.len(),
                views == outcome_views(self.finished@),
                position_of_outcome(views, id) == at + position_of_outcome(
                    views.skip(at as int),
                    id,
                ),
            decreases self.finished@.len() - at,
        {
            proof {
                let rest = views.skip(at as int);
                assert(rest[0] == views[at as int]);
                assert(rest.drop_first() =~= views.skip(at + 1));
            }
            at = at + 1;
        }
        proof {
            let rest = views.skip(at as int);
            if at < self.finished@.len() {
                assert(rest[0] == views[at as int]);
            }
        }
        at
    }

    /// The status of the task with the given identifier, if the coordinator
    /// holds such a task.
    pub fn task_status(&self, id: TaskId) -> (status: Option<TaskStatus>)
        ensures
            status == self@.status_of(id),
    {
        let waiting = self.find_pending(id);
        if waiting < self.pending.len() {
            return Some(self.pending[waiting].status);
        }
        let flying = self.find_in_flight(id);
        if flying < self.in_flight.len() {
            return Some(self.in_flight[flying].task.status);
        }
        let ended = self.find_outcome(id);
        if ended < self.finished.len() {
            return Some(self.finished[ended].result.status);
        }
        None
    }

    /// The outcome of the task with the given identifier, if the task has
    /// ended.
    pub fn outcome_of(&self, id: TaskId) -> (outcome: Option<&TaskOutcome>)
        ensures
            match outcome {
                Some(o) => self@.is_finished(id) && o@ == self@.finished[position_of_outcome(
                    self@.finished,
                    id,
                )],
                None => !self@.is_finished(id),
            },
    {
        let at = self.find_outcome(id);
        if at < self.finished.len() {
            Some(&self.finished[at])
        } else {
            None
        }
    }

    /// Takes a task in. The task is refused, and nothing changes, if the
    /// coordinator is shutting down, if the identifier of the task is nil, if
    /// its payload does not fit its kind, or if the coordinator holds a task
    /// with the same identifier. An accepted task waits in the queue, pending
    /// and with no retry counted.
    pub fn submit_task(&mut self, task: Task) -> (outcome: Result<(), SubmitError>)
        requires
            old(self).wf(),
        ensures
            final(self).wf(),
            final(self).result_queue() == old(self).result_queue(),
            final(self).inboxes() == old(self).inboxes(),
            outcome == match old(self)@.submit_refusal(task@) {
                Some(refusal) => Err::<(), SubmitError>(refusal),
                None => Ok::<(), SubmitError>(()),
            },
            final(self)@ == old(self)@.after_submit(task@),
            old(self)@.balanced() ==> final(self)@.balanced(),
            final(self)@.completed() == old(self)@.completed(),
    {
        proof {
            lemma_after_submit(self@, task@);
        }
        if !self.accepting {
            return Err(SubmitError::ShuttingDown);
        }
        if task.id == 0 {
            return Err(SubmitError::NilId);
        }
        if !task.payload.matches_kind(&task.task_type) {
            return Err(SubmitError::PayloadMismatch);
        }
        let known = self.find_pending(task.id) < self.pending.len() || self.find_in_flight(task.id)
            < self.in_flight.len() || self.find_outcome(task.id) < self.finished.len();
        if known {
            return Err(SubmitError::DuplicateId);
        }
        let mut admitted = task;
        admitted.status = TaskStatus::Pending;
        admitted.retry_count = 0;
        enqueue(&mut self.pending, admitted);
        Ok(())
    }

    /// Registers a worker under `worker_id` and makes its inbox, whose
    /// receiving end is returned. Fails, and changes nothing, if a worker is
    /// registered under that identifier already.
    pub fn register_worker(&mut self, worker_id: WorkerId, config: WorkerConfig, now: Timestamp) -> (outcome:
        Result<Receiver<InboxMessage>, RegisterError>)
        requires
            old(self).wf(),
        ensures
            final(self).wf(),
            final(self).result_queue() == old(self).result_queue(),
            is_registered(old(self)@.workers, worker_id) ==> final(self).inboxes() == old(
                self,
            ).inboxes(),
            !is_registered(old(self)@.workers, worker_id) ==> final(self).inboxes().len() == old(
                self,
            ).inboxes().len() + 1 && final(self).inboxes().drop_last() == old(self).inboxes(),
            is_registered(old(self)@.workers, worker_id) ==> outcome == Err::<
                Receiver<InboxMessage>,
                RegisterError,
            >(RegisterError::AlreadyRegistered(worker_id)) && final(self)@ == old(self)@,
            !is_registered(old(self)@.workers, worker_id) ==> outcome.is_ok() && final(self)@
                == old(self)@.after_register(worker_id, config@, now),
            old(self)@.balanced() ==> final(self)@.balanced(),
            final(self)@.completed() == old(self)@.completed(),
    {
        proof {
            if !is_registered(self@.workers, worker_id) {
                lemma_after_register(self@, worker_id, config@, now);
            }
        }
        self.registry.register(worker_id, config, now)
    }

    /// Takes note of a heartbeat: the time, the load, the status where the
    /// life cycle permits it, and the counters of the worker are set to what
    /// the worker reports. A heartbeat of an unknown worker is ignored.
    ///
    /// The loads stay accounted for if the worker reports the load that is on
    /// record for it.
    pub fn heartbeat(&mut self, worker_id: WorkerId, health: WorkerHealth)
        requires
            old(self).wf(),
        ensures
            final(self).wf(),
            final(self).result_queue() == old(self).result_queue(),
            final(self).inboxes() == old(self).inboxes(),
            final(self)@ == old(self)@.after_heartbeat(worker_id, health@),
            old(self)@.balanced() && (is_registered(old(self)@.workers, worker_id)
                ==> health@.current_load == old(self)@.workers[position_of_worker(
                old(self)@.workers,
                worker_id,
            )].current_load) ==> final(self)@.balanced(),
            final(self)@.completed() == old(self)@.completed(),
    {
        proof {
            lemma_after_heartbeat(self@, worker_id, health@);
        }
        self.registry.heartbeat(worker_id, health);
    }

    /// Puts an outcome on record and counts it.
    fn record(&mut self, outcome: TaskOutcome)
        ensures
            final(self).result_queue() == old(self).result_queue(),
            final(self).inboxes() == old(self).inboxes(),
            final(self)@ == old(self)@.with_outcome(outcome@),
            final(self).registry == old(self).registry,
    {
        self.tasks_processed = if self.tasks_processed < u64::MAX {
            self.tasks_processed + 1
        } else {
            u64::MAX
        };
        if outcome.result.status == TaskStatus::Failed {
            self.tasks_failed = if self.tasks_failed < u64::MAX {
                self.tasks_failed + 1
            } else {
                u64::MAX
            };
        }
        self.processing_time_ms = if outcome.result.processing_time_ms <= u64::MAX
            - self.processing_time_ms {
            self.processing_time_ms + outcome.result.processing_time_ms
        } else {
            u64::MAX
        };
        self.finished.push(outcome);
        assert(self@.finished =~= old(self)@.finished.push(outcome@));
    }

    /// Takes the in-flight entry at `at` out and counts one task less for its
    /// worker.
    fn release(&mut self, at: usize) -> (entry: InFlightEntry)
        requires
            old(self).wf(),
            at < old(self)@.in_flight.len(),
        ensures
            final(self).wf(),
            final(self).result_queue() == old(self).result_queue(),
            final(self).inboxes() == old(self).inboxes(),
            final(self)@ == old(self)@.without_in_flight(at as int),
            entry@ == old(self)@.in_flight[at as int],
            old(self)@.balanced() ==> final(self)@.balanced(),
            final(self)@.completed() == old(self)@.completed(),
            !final(self)@.knows(entry.task.id),
    {
        proof {
            lemma_without_in_flight(self@, at as int);
            assert(is_registered(self@.workers, self@.in_flight[at as int].worker_id));
        }
        let entry = self.in_flight.remove(at);
        let worker = self.registry.position(entry.worker_id);
        self.registry.note_release(worker);
        assert(self@.in_flight =~= old(self)@.in_flight.remove(at as int));
        entry
    }

    /// Gives the pending task at `queue_index` to the worker at
    /// `worker_index`.
    fn assign(&mut self, queue_index: usize, worker_index: usize, now: Timestamp) -> (assignment:
        Assignment)
        requires
            old(self).wf(),
            queue_index < old(self)@.pending.len(),
            worker_index < old(self)@.workers.len(),
            old(self)@.workers[worker_index as int].has_capacity(),
        ensures
            final(self).wf(),
            final(self).result_queue() == old(self).result_queue(),
            final(self).inboxes() == old(self).inboxes(),
            final(self)@ == old(self)@.after_assignment(
                queue_index as int,
                worker_index as int,
                now,
            ),
            assignment@.entry(now) == old(self)@.assignment(
                queue_index as int,
                worker_index as int,
                now,
            ),
            old(self)@.balanced() ==> final(self)@.balanced(),
            final(self)@.completed() == old(self)@.completed(),
    {
        proof {
            lemma_after_assignment(self@, queue_index as int, worker_index as int, now);
            lemma_position_of_distinct(self@.workers, worker_index as int);
        }
        let mut task = self.pending.remove(queue_index);
        task.status = TaskStatus::Assigned;
        let copy = task.clone();
        let records = self.registry.records();
        let worker_id = records[worker_index].id;
        assert(worker_id == self@.workers[worker_index as int].id) by {
            assert(record_views(records@)[worker_index as int] == records@[worker_index as int]@);
        }
        self.registry.note_assignment(worker_index);
        self.in_flight.push(
            InFlightEntry { task, worker_id, assigned_at: now, cancel_requested_at: None },
        );
        assert(self@.pending =~= old(self)@.pending.remove(queue_index as int));
        assert(self@.in_flight =~= old(self)@.in_flight.push(
            old(self)@.assignment(queue_index as int, worker_index as int, now),
        ));
        Assignment { task: copy, worker_id }
    }

    /// At most `limit`, and otherwise the capacity that the workers in service
    /// have left.
    fn free_capacity_up_to(&self, limit: usize) -> (free: usize)
        ensures
            free == if free_capacity(self@.workers) < limit {
                free_capacity(self@.workers)
            } else {
                limit as nat
            },
    {
        let records = self.registry.records();
        let ghost views = record_views(records@);
        let mut free: usize = 0;
        let mut i: usize = 0;
        assert(views.subrange(0, 0) =~= Seq::<WorkerRecordView>::empty());
        while i < records.len() && free < limit
            invariant
                i <= records@.len(),
                views == record_views(records@),
                views == self@.workers,
                free <= limit,
                free == if free_capacity(views.subrange(0, i as int)) < limit {
                    free_capacity(views.subrange(0, i as int))
                } else {
                    limit as nat
                },
            decreases records@.len() - i,
        {
            proof {
                assert(views.subrange(0, i + 1).drop_last() =~= views.subrange(0, i as int));
                assert(views.subrange(0, i + 1).last() == records@[i as int]@);
            }
            let record = &records[i];
            if record.status.is_in_service() && record.has_capacity() {
                let room = record.max_concurrent_tasks - record.current_load;
                free = if room < limit - free {
                    free + room
                } else {
                    limit
                };
            }
            i = i + 1;
        }
        proof {
            if i < records@.len() {
                lemma_free_capacity_grows(views, i as int);
            } else {
                assert(views.subrange(0, i as int) =~= views);
            }
        }
        free
    }

    /// One round of scheduling. Of the pending tasks, in the order of the
    /// queue, as many are tried as the workers in service have capacity left.
    /// Each task for which a worker is eligible is given to the best of them
    /// and is then in flight; the others stay in the queue. The assignments
    /// are returned in the order in which they were made; each is to be
    /// delivered to its worker.
    pub fn schedule(&mut self, now: Timestamp) -> (assignments: Vec<Assignment>)
        requires
            old(self).wf(),
        ensures
            final(self).wf(),
            final(self).result_queue() == old(self).result_queue(),
            final(self).inboxes() == old(self).inboxes(),
            final(self)@ == old(self)@.after_tick(now),
            final(self)@.in_flight == old(self)@.in_flight + assignment_entries(assignments@, now),
            old(self)@.balanced() ==> final(self)@.balanced(),
            final(self)@.completed() == old(self)@.completed(),
    {
        let mut assignments: Vec<Assignment> = Vec::new();
        let mut budget: usize = self.free_capacity_up_to(self.pending.len());
        let mut cursor: usize = 0;
        assert(self@.in_flight =~= old(self)@.in_flight + assignment_entries(assignments@, now));
        while budget > 0 && cursor < self.pending.len()
            invariant
                self.wf(),
                self.result_queue() == old(self).result_queue(),
                self.inboxes() == old(self).inboxes(),
                self@.after_dispatch(now, cursor as int, budget as nat) == old(self)@.after_tick(
                    now,
                ),
                self@.in_flight == old(self)@.in_flight + assignment_entries(assignments@, now),
                old(self)@.balanced() ==> self@.balanced(),
                self@.completed() == old(self)@.completed(),
            decreases budget,
        {
            let ghost before = self@;
            let ghost made = assignment_entries(assignments@, now);
            let choice = select_worker(self.registry.records(), &self.pending[cursor]);
            assert(task_views(self.pending@)[cursor as int] == self.pending@[cursor as int]@);
            match choice {
                Some(worker) => {
                    proof {
                        lemma_best_among(
                            before.workers,
                            before.pending[cursor as int],
                            before.workers.len() as int,
                        );
                    }
                    let assignment = self.assign(cursor, worker, now);
                    assignments.push(assignment);
                    proof {
                        lemma_after_assignment(before, cursor as int, worker as int, now);
                        assert(assignment_entries(assignments@, now) =~= made.push(
                            before.assignment(cursor as int, worker as int, now),
                        ));
                        assert(self@.in_flight =~= old(self)@.in_flight + assignment_entries(
                            assignments@,
                            now,
                        ));
                    }
                },
                None => {
                    cursor = cursor + 1;
                },
            }
            budget = budget - 1;
        }
        assignments
    }

    /// Undoes the assignment of a task: the task waits again, with its
    /// retries as they were, and its worker has one task less. Says whether
    /// the task was in flight; nothing changes if it was not.
    pub fn rollback_assignment(&mut self, id: TaskId) -> (undone: bool)
        requires
            old(self).wf(),
        ensures
            final(self).wf(),
            final(self).result_queue() == old(self).result_queue(),
            final(self).inboxes() == old(self).inboxes(),
            undone == old(self)@.is_in_flight(id),
            final(self)@ == old(self)@.after_rollback(id),
            old(self)@.balanced() ==> final(self)@.balanced(),
            final(self)@.completed() == old(self)@.completed(),
    {
        proof {
            lemma_after_rollback(self@, id);
        }
        let at = self.find_in_flight(id);
        if at >= self.in_flight.len() {
            return false;
        }
        let entry = self.release(at);
        let mut task = entry.task;
        task.status = TaskStatus::Pending;
        enqueue(&mut self.pending, task);
        true
    }

    /// Hands an assignment to the inbox of its worker. If the inbox does not
    /// take it, the assignment is undone. An assignment that is no longer in
    /// force, because its task is not in flight with that worker any more, is
    /// dropped and changes nothing.
    pub fn deliver(&mut self, assignment: Assignment) -> (delivery: Delivery)
        requires
            old(self).wf(),
        ensures
            final(self).wf(),
            final(self).result_queue() == old(self).result_queue(),
            final(self).inboxes() == old(self).inboxes(),
            !old(self)@.in_force(assignment@) ==> delivery == Delivery::Dropped,
            old(self)@.in_force(assignment@) ==> delivery == Delivery::Delivered || delivery
                == Delivery::Returned,
            delivery == Delivery::Returned ==> final(self)@ == old(self)@.after_rollback(
                assignment@.task.id,
            ),
            delivery != Delivery::Returned ==> final(self)@ == old(self)@,
            old(self)@.balanced() ==> final(self)@.balanced(),
            final(self)@.completed() == old(self)@.completed(),
    {
        let at = self.find_in_flight(assignment.task.id);
        if at >= self.in_flight.len() || self.in_flight[at].worker_id != assignment.worker_id {
            return Delivery::Dropped;
        }
        assert(in_flight_views(self.in_flight@)[at as int] == self.in_flight@[at as int]@);
        assert(is_registered(self@.workers, self@.in_flight[at as int].worker_id));
        let worker = self.registry.position(assignment.worker_id);
        let id = assignment.task.id;
        let sent = try_send(self.registry.inbox(worker), inbox_message(assignment));
        self.settle_delivery(id, sent)
    }

    /// Settles the delivery of the task with the given identifier, given
    /// what the inbox of its worker answered. Where the inbox took the task,
    /// the task is delivered and nothing changes. Where the inbox gave it
    /// back, because it is full or closed, the assignment is undone: the
    /// task waits again, with its retries as they were, and its worker has
    /// one task less.
    pub fn settle_delivery(&mut self, id: TaskId, sent: Result<(), (SendFailure, InboxMessage)>) -> (delivery:
        Delivery)
        requires
            old(self).wf(),
        ensures
            final(self).wf(),
            final(self).result_queue() == old(self).result_queue(),
            final(self).inboxes() == old(self).inboxes(),
            sent.is_ok() ==> delivery == Delivery::Delivered && final(self)@ == old(self)@,
            sent.is_err() ==> delivery == Delivery::Returned && final(self)@ == old(
                self,
            )@.after_rollback(id),
            old(self)@.balanced() ==> final(self)@.balanced(),
            final(self)@.completed() == old(self)@.completed(),
    {
        match sent {
            Ok(()) => Delivery::Delivered,
            Err(_) => {
                self.rollback_assignment(id);
                Delivery::Returned
            },
        }
    }

    /// Takes note that the worker has picked the task up: the task is then
    /// processing. Says whether the task was in flight; nothing changes if it
    /// was not.
    pub fn note_pickup(&mut self, id: TaskId) -> (noted: bool)
        requires
            old(self).wf(),
        ensures
            final(self).wf(),
            final(self).result_queue() == old(self).result_queue(),
            final(self).inboxes() == old(self).inboxes(),
            noted == old(self)@.is_in_flight(id),
            final(self)@ == old(self)@.after_pickup(id),
            old(self)@.balanced() ==> final(self)@.balanced(),
            final(self)@.completed() == old(self)@.completed(),
    {
        proof {
            lemma_after_pickup(self@, id);
        }
        let at = self.find_in_flight(id);
        if at >= self.in_flight.len() {
            return false;
        }
        let ghost before = self.in_flight@[at as int]@;
        let entry = &mut self.in_flight[at];
        entry.task.status = TaskStatus::Processing;
        assert(self@.in_flight =~= old(self)@.in_flight.update(
            at as int,
            InFlightView {
                task: TaskView { status: TaskStatus::Processing, ..before.task },
                ..before
            },
        ));
        true
    }

    /// Takes a result in. A result that is not final, or whose task is not in
    /// flight, is ignored: late and repeated results change nothing.
    /// Otherwise the task leaves its worker, whose load goes down and whose
    /// counters go up. A failed task with retries left waits again, with one
    /// more retry counted; any other task has ended, and its outcome is put
    /// on record for those who wait for it.
    ///
    /// A task is completed by this, and only by this: when the result is
    /// taken and says that the task is completed.
    pub fn ingest_result(&mut self, result: TaskResult) -> (ingestion: Ingestion)
        requires
            old(self).wf(),
        ensures
            final(self).wf(),
            final(self).result_queue() == old(self).result_queue(),
            final(self).inboxes() == old(self).inboxes(),
            final(self)@ == old(self)@.after_result(result@),
            ingestion == if !old(self)@.takes(result@) {
                Ingestion::Ignored
            } else if old(self)@.retries(result@) {
                Ingestion::Retried
            } else {
                Ingestion::Finished
            },
            old(self)@.balanced() ==> final(self)@.balanced(),
            final(self)@.completed() == if old(self)@.takes(result@) && result@.status
                == TaskStatus::Completed {
                old(self)@.completed().insert(result@.task_id)
            } else {
                old(self)@.completed()
            },
            old(self)@.takes(result@) ==> !old(self)@.completed().contains(result@.task_id),
    {
        proof {
            lemma_after_result(self@, result@);
        }
        let at = self.find_in_flight(result.task_id);
        if at >= self.in_flight.len() || !result.status.is_terminal() {
            return Ingestion::Ignored;
        }
        let status = result.status;
        let entry = self.release(at);
        proof {
            lemma_position_of_worker(self@.workers, entry.worker_id);
        }
        let worker = self.registry.position(entry.worker_id);
        if worker < self.registry.len() {
            self.registry.note_result(worker, status);
        }
        let mut task = entry.task;
        if status == TaskStatus::Failed && task.retry_count < task.max_retries {
            task.status = TaskStatus::Pending;
            task.retry_count = task.retry_count + 1;
            enqueue(&mut self.pending, task);
            Ingestion::Retried
        } else {
            let failure = if status == TaskStatus::Failed {
                Some(FailureKind::Execution)
            } else {
                None
            };
            self.record(
                TaskOutcome {
                    result,
                    retry_count: task.retry_count,
                    max_retries: task.max_retries,
                    failure,
                },
            );
            Ingestion::Finished
        }
    }

    fn find_held_by(&self, worker: WorkerId) -> (at: usize)
        ensures
            at == first_held_by(self@.in_flight, worker),
            at <= self.in_flight@.len(),
    {
        let ghost views = in_flight_views(self.in_flight@);
        let mut at: usize = 0;
        assert(views.skip(0) =~= views);
        while at < self.in_flight.len() && self.in_flight[at].worker_id != worker
            invariant
                at <= self.in_flight@.len(),
                views == in_flight_views(self.in_flight@),
                first_held_by(views, worker) == at + first_held_by(views.skip(at as int), worker),
            decreases self.in_flight@.len() - at,
        {
            proof {
                let rest = views.skip(at as int);
                assert(rest[0] == views[at as int]);
                assert(rest.drop_first() =~= views.skip(at + 1));
            }
            at = at + 1;
        }
        proof {
            let rest = views.skip(at as int);
            if at < self.in_flight@.len() {
                assert(rest[0] == views[at as int]);
            }
        }
        at
    }

    /// Unregisters a worker: every task that it holds is taken back and waits
    /// again, with its retries as they were, and the record of the worker is
    /// removed, which closes its inbox. Says whether such a worker was
    /// registered; nothing changes if none was.
    pub fn unregister_worker(&mut self, worker_id: WorkerId) -> (removed: bool)
        requires
            old(self).wf(),
        ensures
            final(self).wf(),
            final(self).result_queue() == old(self).result_queue(),
            removed ==> final(self).inboxes() == old(self).inboxes().remove(
                position_of_worker(old(self)@.workers, worker_id),
            ),
            !removed ==> final(self).inboxes() == old(self).inboxes(),
            removed == is_registered(old(self)@.workers, worker_id),
            final(self)@ == old(self)@.after_unregister(worker_id),
            removed ==> final(self)@.workers.len() == old(self)@.workers.len() - 1,
            !is_registered(final(self)@.workers, worker_id),
            old(self)@.balanced() ==> final(self)@.balanced(),
            final(self)@.completed() == old(self)@.completed(),
    {
        if self.registry.position(worker_id) >= self.registry.len() {
            return false;
        }
        loop
            invariant
                self.wf(),
                self.result_queue() == old(self).result_queue(),
                self.inboxes() == old(self).inboxes(),
                position_of_worker(self@.workers, worker_id) == position_of_worker(
                    old(self)@.workers,
                    worker_id,
                ),
                self@.after_recall(worker_id) == old(self)@.after_recall(worker_id),
                self@.workers.len() == old(self)@.workers.len(),
                is_registered(self@.workers, worker_id),
                old(self)@.balanced() ==> self@.balanced(),
                self@.completed() == old(self)@.completed(),
            ensures
                self.wf(),
                self.result_queue() == old(self).result_queue(),
                self.inboxes() == old(self).inboxes(),
                position_of_worker(self@.workers, worker_id) == position_of_worker(
                    old(self)@.workers,
                    worker_id,
                ),
                self@ == old(self)@.after_recall(worker_id),
                first_held_by(self@.in_flight, worker_id) >= self@.in_flight.len(),
                self@.workers.len() == old(self)@.workers.len(),
                is_registered(self@.workers, worker_id),
                old(self)@.balanced() ==> self@.balanced(),
                self@.completed() == old(self)@.completed(),
            decreases self@.in_flight.len(),
        {
            let at = self.find_held_by(worker_id);
            if at >= self.in_flight.len() {
                break;
            }
            proof {
                lemma_recall_one(self@, at as int);
                let holder = position_of_worker(self@.workers, self@.in_flight[at as int].worker_id);
                lemma_position_of_worker(self@.workers, self@.in_flight[at as int].worker_id);
                assert(is_registered(self@.workers, self@.in_flight[at as int].worker_id));
                crate::rules::lemma_update_keeps_positions(
                    self@.workers,
                    holder,
                    self@.workers[holder].after_release(),
                );
            }
            let entry = self.release(at);
            let mut task = entry.task;
            task.status = TaskStatus::Pending;
            enqueue(&mut self.pending, task);
        }
        proof {
            lemma_position_of_worker(self@.workers, worker_id);
            lemma_remove_worker(self@, position_of_worker(self@.workers, worker_id));
        }
        let ghost recalled = self@;
        self.registry.unregister(worker_id);
        proof {
            let at = position_of_worker(recalled.workers, worker_id);
            lemma_position_of_worker(self@.workers, worker_id);
            if is_registered(self@.workers, worker_id) {
                let found = position_of_worker(self@.workers, worker_id);
                let before = if found < at { found } else { found + 1 };
                assert(self@.workers[found] == recalled.workers[before]);
                if before < at {
                    assert(recalled.workers[before].id != recalled.workers[at].id);
                } else {
                    assert(recalled.workers[at].id != recalled.workers[before].id);
                }
            }
        }
        true
    }

    fn find_stale(&self, now: Timestamp, timeout_ms: u64) -> (at: usize)
        ensures
            at == first_stale(self@.workers, now, timeout_ms),
            at <= self@.workers.len(),
    {
        let records = self.registry.records();
        let ghost views = record_views(records@);
        let mut at: usize = 0;
        assert(views.skip(0) =~= views);
        while at < records.len() && !records[at].is_stale(now, timeout_ms)
            invariant
                at <= records@.len(),
                views == record_views(records@),
                first_stale(views, now, timeout_ms) == at + first_stale(
                    views.skip(at as int),
                    now,
                    timeout_ms,
                ),
            decreases records@.len() - at,
        {
            proof {
                let rest = views.skip(at as int);
                assert(rest[0] == views[at as int]);
                assert(rest.drop_first() =~= views.skip(at + 1));
            }
            at = at + 1;
        }
        proof {
            let rest = views.skip(at as int);
            if at < records@.len() {
                assert(rest[0] == views[at as int]);
            }
        }
        at
    }

    /// Unregisters every worker that has not been heard of for longer than
    /// `timeout_ms`, as [`SwarmCoordinator::unregister_worker`] does, in the
    /// order of their registration. The identifiers of the workers that went
    /// are returned. No stale worker remains.
    pub fn evict_stale(&mut self, now: Timestamp, timeout_ms: u64) -> (evicted: Vec<WorkerId>)
        requires
            old(self).wf(),
        ensures
            final(self).wf(),
            final(self).result_queue() == old(self).result_queue(),
            final(self).inboxes() == old(self)@.kept_beside(
                old(self).inboxes(),
                now,
                timeout_ms,
                old(self)@.workers.len(),
            ),
            final(self)@ == old(self)@.after_eviction(now, timeout_ms, old(self)@.workers.len()),
            evicted@ == old(self)@.evicted(now, timeout_ms, old(self)@.workers.len()),
            first_stale(final(self)@.workers, now, timeout_ms) >= final(self)@.workers.len(),
            evicted@.len() == old(self)@.workers.len() - final(self)@.workers.len(),
            forall|i: int|
                0 <= i < evicted@.len() ==> !is_registered(
                    final(self)@.workers,
                    #[trigger] evicted@[i],
                ),
            old(self)@.balanced() ==> final(self)@.balanced(),
            final(self)@.completed() == old(self)@.completed(),
    {
        let mut evicted: Vec<WorkerId> = Vec::new();
        assert(evicted@ + self@.evicted(now, timeout_ms, self@.workers.len()) =~= self@.evicted(
            now,
            timeout_ms,
            self@.workers.len(),
        ));
        loop
            invariant
                self.wf(),
                self.result_queue() == old(self).result_queue(),
                self@.kept_beside(self.inboxes(), now, timeout_ms, self@.workers.len()) == old(
                    self,
                )@.kept_beside(old(self).inboxes(), now, timeout_ms, old(self)@.workers.len()),
                self@.after_eviction(now, timeout_ms, self@.workers.len()) == old(
                    self,
                )@.after_eviction(now, timeout_ms, old(self)@.workers.len()),
                evicted@ + self@.evicted(now, timeout_ms, self@.workers.len()) == old(
                    self,
                )@.evicted(now, timeout_ms, old(self)@.workers.len()),
                evicted@.len() == old(self)@.workers.len() - self@.workers.len(),
                self@.workers.len() <= old(self)@.workers.len(),
                forall|i: int|
                    0 <= i < evicted@.len() ==> !is_registered(
                        self@.workers,
                        #[trigger] evicted@[i],
                    ),
                old(self)@.balanced() ==> self@.balanced(),
                self@.completed() == old(self)@.completed(),
            ensures
                self.wf(),
                self.result_queue() == old(self).result_queue(),
                self.inboxes() == old(self)@.kept_beside(
                    old(self).inboxes(),
                    now,
                    timeout_ms,
                    old(self)@.workers.len(),
                ),
                self@ == old(self)@.after_eviction(now, timeout_ms, old(self)@.workers.len()),
                evicted@ == old(self)@.evicted(now, timeout_ms, old(self)@.workers.len()),
                first_stale(self@.workers, now, timeout_ms) >= self@.workers.len(),
                evicted@.len() == old(self)@.workers.len() - self@.workers.len(),
                forall|i: int|
                    0 <= i < evicted@.len() ==> !is_registered(
                        self@.workers,
                        #[trigger] evicted@[i],
                    ),
                old(self)@.balanced() ==> self@.balanced(),
                self@.completed() == old(self)@.completed(),
            decreases self@.workers.len(),
        {
            let at = self.find_stale(now, timeout_ms);
            if at >= self.registry.len() {
                assert(evicted@ + Seq::<WorkerId>::empty() =~= evicted@);
                break;
            }
            let ghost gone = evicted@;
            let records = self.registry.records();
            let id = records[at].id;
            assert(id == self@.workers[at as int].id) by {
                assert(record_views(records@)[at as int] == records@[at as int]@);
            }
            let ghost before = self@;
            proof {
                lemma_position_of_distinct(self@.workers, at as int);
            }
            self.unregister_worker(id);
            proof {
                assert forall|i: int| 0 <= i < evicted@.len() implies !is_registered(
                    self@.workers,
                    #[trigger] evicted@[i],
                ) by {
                    lemma_unregister_keeps_absent(before, id, evicted@[i]);
                }
            }
            evicted.push(id);
            assert(evicted@ + self@.evicted(now, timeout_ms, self@.workers.len()) =~= gone + (
            seq![id] + self@.evicted(now, timeout_ms, self@.workers.len())));
        }
        evicted
    }

    fn find_overdue(&self, now: Timestamp) -> (at: usize)
        ensures
            at == first_overdue(self@.pending, now),
            at <= self@.pending.len(),
    {
        let ghost views = task_views(self.pending@);
        let mut at: usize = 0;
        assert(views.skip(0) =~= views);
        while at < self.pending.len() && !is_overdue(&self.pending[at], now)
            invariant
                at <= self.pending@.len(),
                views == task_views(self.pending@),
                first_overdue(views, now) == at + first_overdue(views.skip(at as int), now),
            decreases self.pending@.len() - at,
        {
            proof {
                let rest = views.skip(at as int);
                assert(rest[0] == views[at as int]);
                assert(rest.drop_first() =~= views.skip(at + 1));
            }
            at = at + 1;
        }
        proof {
            let rest = views.skip(at as int);
            if at < self.pending@.len() {
                assert(rest[0] == views[at as int]);
            }
        }
        at
    }

    /// Whether some registered worker is compatible with the task.
    fn any_compatible(&self, task: &Task) -> (found: bool)
        ensures
            found == some_compatible(self@.workers, task@),
    {
        let records = self.registry.records();
        let ghost views = record_views(records@);
        let mut i: usize = 0;
        while i < records.len()
            invariant
                i <= records@.len(),
                views == record_views(records@),
                views == self@.workers,
                forall|j: int| 0 <= j < i ==> !compatible(#[trigger] views[j], task@),
            decreases records@.len() - i,
        {
            assert(views[i as int] == records@[i as int]@);
            if covers_requirements(&records[i], task) && supports_kind(
                &records[i],
                &task.task_type,
            ) {
                return true;
            }
            i = i + 1;
        }
        false
    }

    /// Gives up every pending task whose deadline has passed, in the order of
    /// the queue. Each such task has failed: for want of a worker if no
    /// registered worker is compatible with it, for want of time otherwise.
    /// The outcomes are put on record, and copies of them are returned.
    pub fn expire_deadlines(&mut self, now: Timestamp) -> (expired: Vec<TaskOutcome>)
        requires
            old(self).wf(),
        ensures
            final(self).wf(),
            final(self).result_queue() == old(self).result_queue(),
            final(self).inboxes() == old(self).inboxes(),
            final(self)@ == old(self)@.after_expiry(now),
            first_overdue(final(self)@.pending, now) >= final(self)@.pending.len(),
            final(self)@.finished == old(self)@.finished + outcome_views(expired@),
            old(self)@.balanced() ==> final(self)@.balanced(),
            final(self)@.completed() == old(self)@.completed(),
    {
        let mut expired: Vec<TaskOutcome> = Vec::new();
        assert(self@.finished =~= old(self)@.finished + outcome_views(expired@));
        loop
            invariant
                self.wf(),
                self.result_queue() == old(self).result_queue(),
                self.inboxes() == old(self).inboxes(),
                self@.after_expiry(now) == old(self)@.after_expiry(now),
                self@.finished == old(self)@.finished + outcome_views(expired@),
                old(self)@.balanced() ==> self@.balanced(),
                self@.completed() == old(self)@.completed(),
            ensures
                self.wf(),
                self.result_queue() == old(self).result_queue(),
                self.inboxes() == old(self).inboxes(),
                self@ == old(self)@.after_expiry(now),
                first_overdue(self@.pending, now) >= self@.pending.len(),
                self@.finished == old(self)@.finished + outcome_views(expired@),
                old(self)@.balanced() ==> self@.balanced(),
                self@.completed() == old(self)@.completed(),
            decreases self@.pending.len(),
        {
            let at = self.find_overdue(now);
            if at >= self.pending.len() {
                break;
            }
            let ghost before = self@;
            let ghost made = outcome_views(expired@);
            proof {
                lemma_after_expiry_of(before, at as int, now);
            }
            let task = self.pending.remove(at);
            assert(self@.pending =~= before.pending.remove(at as int));
            assert(task@ == before.pending[at as int]);
            let stranded = !self.any_compatible(&task);
            let outcome = TaskOutcome {
                result: TaskResult {
                    task_id: task.id,
                    status: TaskStatus::Failed,
                    result: None,
                    error: Some(
                        if stranded {
                            String::from_str("no_worker")
                        } else {
                            String::from_str("deadline_exceeded")
                        },
                    ),
                    processing_time_ms: 0,
                    completed_at: now,
                    metadata: TextMap::new(),
                },
                retry_count: task.retry_count,
                max_retries: task.max_retries,
                failure: Some(
                    if stranded {
                        FailureKind::NoWorker
                    } else {
                        FailureKind::DeadlineExceeded
                    },
                ),
            };
            expired.push(outcome.clone());
            self.record(outcome);
            proof {
                assert(outcome_views(expired@) =~= made.push(outcome@));
                assert(self@.finished =~= old(self)@.finished + outcome_views(expired@));
                assert(self@ == before.after_expiry_of(at as int, now));
            }
        }
        expired
    }

    /// Asks for the cancellation of a task. A pending task is cancelled at
    /// once and its outcome is put on record. For a task in flight the
    /// request is noted, with the time of the first request, and its worker is
    /// told; the task ends when the worker answers or when the request has
    /// gone unanswered for too long. Nothing changes for any other task.
    pub fn cancel_task(&mut self, id: TaskId, now: Timestamp) -> (cancellation: Cancellation)
        requires
            old(self).wf(),
        ensures
            final(self).wf(),
            final(self).result_queue() == old(self).result_queue(),
            final(self).inboxes() == old(self).inboxes(),
            final(self)@ == old(self)@.after_cancel(id, now),
            cancellation == if old(self)@.is_pending(id) {
                Cancellation::Cancelled
            } else if !old(self)@.is_in_flight(id) {
                Cancellation::Unknown
            } else if old(self)@.in_flight[position_in_flight(
                old(self)@.in_flight,
                id,
            )].cancel_requested_at.is_none() {
                Cancellation::Requested
            } else {
                Cancellation::AlreadyRequested
            },
            old(self)@.balanced() ==> final(self)@.balanced(),
            final(self)@.completed() == old(self)@.completed(),
    {
        proof {
            lemma_after_cancel(self@, id, now);
        }
        let waiting = self.find_pending(id);
        if waiting < self.pending.len() {
            let task = self.pending.remove(waiting);
            assert(self@.pending =~= old(self)@.pending.remove(waiting as int));
            self.record(
                TaskOutcome {
                    result: TaskResult {
                        task_id: task.id,
                        status: TaskStatus::Cancelled,
                        result: None,
                        error: None,
                        processing_time_ms: 0,
                        completed_at: now,
                        metadata: TextMap::new(),
                    },
                    retry_count: task.retry_count,
                    max_retries: task.max_retries,
                    failure: None,
                },
            );
            return Cancellation::Cancelled;
        }
        let flying = self.find_in_flight(id);
        if flying >= self.in_flight.len() {
            return Cancellation::Unknown;
        }
        assert(in_flight_views(self.in_flight@)[flying as int] == self.in_flight@[flying as int]@);
        if self.in_flight[flying].cancel_requested_at.is_some() {
            return Cancellation::AlreadyRequested;
        }
        let ghost before = self.in_flight@[flying as int]@;
        let entry = &mut self.in_flight[flying];
        entry.cancel_requested_at = Some(now);
        let holder = entry.worker_id;
        assert(self@.in_flight =~= old(self)@.in_flight.update(
            flying as int,
            InFlightView { cancel_requested_at: Some(now), ..before },
        ));
        let worker = self.registry.position(holder);
        if worker < self.registry.len() {
            let _ = try_send(self.registry.inbox(worker), InboxMessage::Cancel(id));
        }
        Cancellation::Requested
    }

    fn find_unanswered(&self, now: Timestamp, grace_ms: u64) -> (at: usize)
        ensures
            at == first_unanswered(self@.in_flight, now, grace_ms),
            at <= self@.in_flight.len(),
    {
        let ghost views = in_flight_views(self.in_flight@);
        let mut at: usize = 0;
        assert(views.skip(0) =~= views);
        while at < self.in_flight.len() && !is_cancellation_overdue(
            &self.in_flight[at],
            now,
            grace_ms,
        )
            invariant
                at <= self.in_flight@.len(),
                views == in_flight_views(self.in_flight@),
                first_unanswered(views, now, grace_ms) == at + first_unanswered(
                    views.skip(at as int),
                    now,
                    grace_ms,
                ),
            decreases self.in_flight@.len() - at,
        {
            proof {
                let rest = views.skip(at as int);
                assert(rest[0] == views[at as int]);
                assert(rest.drop_first() =~= views.skip(at + 1));
            }
            at = at + 1;
        }
        proof {
            let rest = views.skip(at as int);
            if at < self.in_flight@.len() {
                assert(rest[0] == views[at as int]);
            }
        }
        at
    }

    /// Cancels the in-flight task at `at` without the word of its worker.
    fn force_cancel(&mut self, at: usize, now: Timestamp) -> (outcome: TaskOutcome)
        requires
            old(self).wf(),
            at < old(self)@.in_flight.len(),
        ensures
            final(self).wf(),
            final(self).result_queue() == old(self).result_queue(),
            final(self).inboxes() == old(self).inboxes(),
            final(self)@ == old(self)@.after_forced_cancel(at as int, now),
            final(self)@.finished == old(self)@.finished.push(outcome@),
            old(self)@.balanced() ==> final(self)@.balanced(),
            final(self)@.completed() == old(self)@.completed(),
    {
        proof {
            lemma_after_forced_cancel(self@, at as int, now);
        }
        let entry = self.release(at);
        let outcome = TaskOutcome {
            result: TaskResult {
                task_id: entry.task.id,
                status: TaskStatus::Cancelled,
                result: None,
                error: None,
                processing_time_ms: 0,
                completed_at: now,
                metadata: TextMap::new(),
            },
            retry_count: entry.task.retry_count,
            max_retries: entry.task.max_retries,
            failure: None,
        };
        let copy = outcome.clone();
        self.record(outcome);
        copy
    }

    /// Cancels every in-flight task whose cancellation was asked for more
    /// than `grace_ms` ago and has not been answered, in the order of
    /// assignment. The outcomes are put on record, and copies of them are
    /// returned.
    pub fn expire_cancellations(&mut self, now: Timestamp, grace_ms: u64) -> (cancelled: Vec<
        TaskOutcome,
    >)
        requires
            old(self).wf(),
        ensures
            final(self).wf(),
            final(self).result_queue() == old(self).result_queue(),
            final(self).inboxes() == old(self).inboxes(),
            final(self)@ == old(self)@.after_cancel_grace(now, grace_ms),
            first_unanswered(final(self)@.in_flight, now, grace_ms)
                >= final(self)@.in_flight.len(),
            final(self)@.finished == old(self)@.finished + outcome_views(cancelled@),
            old(self)@.balanced() ==> final(self)@.balanced(),
            final(self)@.completed() == old(self)@.completed(),
    {
        let mut cancelled: Vec<TaskOutcome> = Vec::new();
        assert(self@.finished =~= old(self)@.finished + outcome_views(cancelled@));
        loop
            invariant
                self.wf(),
                self.result_queue() == old(self).result_queue(),
                self.inboxes() == old(self).inboxes(),
                self@.after_cancel_grace(now, grace_ms) == old(self)@.after_cancel_grace(
                    now,
                    grace_ms,
                ),
                self@.finished == old(self)@.finished + outcome_views(cancelled@),
                old(self)@.balanced() ==> self@.balanced(),
                self@.completed() == old(self)@.completed(),
            ensures
                self.wf(),
                self.result_queue() == old(self).result_queue(),
                self.inboxes() == old(self).inboxes(),
                self@ == old(self)@.after_cancel_grace(now, grace_ms),
                first_unanswered(self@.in_flight, now, grace_ms) >= self@.in_flight.len(),
                self@.finished == old(self)@.finished + outcome_views(cancelled@),
                old(self)@.balanced() ==> self@.balanced(),
                self@.completed() == old(self)@.completed(),
            decreases self@.in_flight.len(),
        {
            let at = self.find_unanswered(now, grace_ms);
            if at >= self.in_flight.len() {
                break;
            }
            let ghost made = outcome_views(cancelled@);
            let outcome = self.force_cancel(at, now);
            cancelled.push(outcome);
            proof {
                assert(outcome_views(cancelled@) =~= made.push(outcome@));
                assert(self@.finished =~= old(self)@.finished + outcome_views(cancelled@));
            }
        }
        cancelled
    }

    /// Begins to shut down: from now on no task is accepted, and every worker
    /// is told, as far as its inbox takes the word.
    pub fn begin_shutdown(&mut self)
        requires
            old(self).wf(),
        ensures
            final(self).wf(),
            final(self).result_queue() == old(self).result_queue(),
            final(self).inboxes() == old(self).inboxes(),
            final(self)@ == old(self)@.after_shutdown_begun(),
            old(self)@.balanced() ==> final(self)@.balanced(),
            final(self)@.completed() == old(self)@.completed(),
    {
        self.accepting = false;
        assert(self@.completed() =~= old(self)@.completed());
        let mut i: usize = 0;
        while i < self.registry.len()
            invariant
                self.wf(),
                self.result_queue() == old(self).result_queue(),
                self.inboxes() == old(self).inboxes(),
                self@ == old(self)@.after_shutdown_begun(),
            decreases self@.workers.len() - i,
        {
            let _ = try_send(self.registry.inbox(i), InboxMessage::Shutdown);
            i = i + 1;
        }
    }

    /// Ends the shutdown: no task is accepted, and every task that has not
    /// ended is cancelled, those in flight first, then those that wait. The
    /// outcomes are put on record, and copies of them are returned.
    pub fn finish_shutdown(&mut self, now: Timestamp) -> (cancelled: Vec<TaskOutcome>)
        requires
            old(self).wf(),
        ensures
            final(self).wf(),
            final(self).result_queue() == old(self).result_queue(),
            final(self).inboxes() == old(self).inboxes(),
            final(self)@ == old(self)@.after_shutdown(now),
            final(self)@.pending.len() == 0,
            final(self)@.in_flight.len() == 0,
            final(self)@.finished == old(self)@.finished + outcome_views(cancelled@),
            old(self)@.balanced() ==> final(self)@.balanced(),
            final(self)@.completed() == old(self)@.completed(),
    {
        let mut cancelled: Vec<TaskOutcome> = Vec::new();
        self.accepting = false;
        assert(self@.completed() =~= old(self)@.completed());
        assert(self@.finished =~= old(self)@.finished + outcome_views(cancelled@));
        while self.in_flight.len() > 0
            invariant
                self.wf(),
                self.result_queue() == old(self).result_queue(),
                self.inboxes() == old(self).inboxes(),
                self@.after_flight_cancelled(now) == old(
                    self,
                )@.after_shutdown_begun().after_flight_cancelled(now),
                self@.finished == old(self)@.finished + outcome_views(cancelled@),
                old(self)@.balanced() ==> self@.balanced(),
                self@.completed() == old(self)@.completed(),
            decreases self@.in_flight.len(),
        {
            let ghost made = outcome_views(cancelled@);
            let outcome = self.force_cancel(0, now);
            cancelled.push(outcome);
            proof {
                assert(outcome_views(cancelled@) =~= made.push(outcome@));
                assert(self@.finished =~= old(self)@.finished + outcome_views(cancelled@));
            }
        }
        while self.pending.len() > 0
            invariant
                self.wf(),
                self.result_queue() == old(self).result_queue(),
                self.inboxes() == old(self).inboxes(),
                self@.in_flight.len() == 0,
                self@.after_queue_cancelled(now) == old(self)@.after_shutdown(now),
                self@.finished == old(self)@.finished + outcome_views(cancelled@),
                old(self)@.balanced() ==> self@.balanced(),
                self@.completed() == old(self)@.completed(),
            decreases self@.pending.len(),
        {
            let ghost before = self@;
            let ghost made = outcome_views(cancelled@);
            proof {
                lemma_cancel_pending(before, 0, now);
            }
            let task = self.pending.remove(0);
            assert(self@.pending =~= before.pending.remove(0));
            let outcome = TaskOutcome {
                result: TaskResult {
                    task_id: task.id,
                    status: TaskStatus::Cancelled,
                    result: None,
                    error: None,
                    processing_time_ms: 0,
                    completed_at: now,
                    metadata: TextMap::new(),
                },
                retry_count: task.retry_count,
                max_retries: task.max_retries,
                failure: None,
            };
            cancelled.push(outcome.clone());
            self.record(outcome);
            proof {
                assert(outcome_views(cancelled@) =~= made.push(outcome@));
                assert(self@.finished =~= old(self)@.finished + outcome_views(cancelled@));
            }
        }
        cancelled
    }

    /// Hands the outcome of a task over for good: it is taken off the record.
    /// `None` if the task has not ended, or is not known.
    pub fn take_outcome(&mut self, id: TaskId) -> (outcome: Option<TaskOutcome>)
        requires
            old(self).wf(),
        ensures
            final(self).wf(),
            final(self).result_queue() == old(self).result_queue(),
            final(self).inboxes() == old(self).inboxes(),
            final(self)@ == old(self)@.after_take(id),
            match outcome {
                Some(o) => old(self)@.is_finished(id) && o@ == old(self)@.finished[position_of_outcome(
                    old(self)@.finished,
                    id,
                )],
                None => !old(self)@.is_finished(id),
            },
            old(self)@.balanced() ==> final(self)@.balanced(),
            final(self)@.completed() == old(self)@.completed().remove(id),
    {
        proof {
            lemma_after_take(self@, id);
        }
        let at = self.find_outcome(id);
        if at >= self.finished.len() {
            return None;
        }
        let outcome = self.finished.remove(at);
        assert(self@.finished =~= old(self)@.finished.remove(at as int));
        Some(outcome)
    }

    /// Number of workers in service.
    fn count_in_service(&self) -> (n: usize)
        ensures
            n == in_service_count(self@.workers),
    {
        let records = self.registry.records();
        let ghost views = record_views(records@);
        let mut n: usize = 0;
        let mut i: usize = 0;
        assert(views.subrange(0, 0) =~= Seq::<WorkerRecordView>::empty());
        while i < records.len()
            invariant
                i <= records@.len(),
                views == record_views(records@),
                views == self@.workers,
                n <= i,
                n == in_service_count(views.subrange(0, i as int)),
            decreases records@.len() - i,
        {
            proof {
                assert(views.subrange(0, i + 1).drop_last() =~= views.subrange(0, i as int));
                assert(views.subrange(0, i + 1).last() == records@[i as int]@);
            }
            if records[i].status.is_in_service() {
                n = n + 1;
            }
            i = i + 1;
        }
        assert(views.subrange(0, i as int) =~= views);
        n
    }

    /// The figures of the coordinator, for an uptime of `uptime_ms`
    /// milliseconds.
    pub fn stats(&self, uptime_ms: u64) -> (stats: CoordinatorStats)
        ensures
            stats == self@.stats(uptime_ms),
    {
        let processed = self.tasks_processed;
        let per_second: u128 = if uptime_ms == 0 {
            0
        } else {
            (processed as u128 * 1_000_000) / (uptime_ms as u128)
        };
        let rate: u128 = if processed == 0 {
            0
        } else {
            (self.tasks_failed as u128 * 1000) / (processed as u128)
        };
        CoordinatorStats {
            total_workers: self.registry.len(),
            active_workers: self.count_in_service(),
            total_tasks_processed: processed,
            tasks_per_second_milli: if per_second > u64::MAX as u128 {
                u64::MAX
            } else {
                per_second as u64
            },
            average_processing_time_ms: if processed == 0 {
                0
            } else {
                self.processing_time_ms / processed
            },
            error_rate_permille: if rate > u64::MAX as u128 {
                u64::MAX
            } else {
                rate as u64
            },
        }
    }

    /// One round of everything that the coordinator does by itself, at
    /// `now`. The results that wait in the coordinator's own queue are taken
    /// in; the workers that have not been heard of for longer than
    /// `heartbeat_timeout_ms` are unregistered; the pending tasks whose
    /// deadline has passed are given up; the cancellations that have gone
    /// unanswered for longer than `cancel_grace_ms` are carried out; the
    /// pending tasks are scheduled; and every assignment is delivered to its
    /// worker, or undone where the inbox of the worker does not take it. What
    /// came of each delivery is returned, in the order of the assignments.
    pub fn tick(&mut self, now: Timestamp, heartbeat_timeout_ms: u64, cancel_grace_ms: u64) -> (deliveries:
        Vec<Delivery>)
        requires
            old(self).wf(),
        ensures
            final(self).wf(),
            final(self).result_queue() == old(self).result_queue(),
            exists|results: Seq<TaskResultView>|
                #![trigger old(self)@.before_round(results, now, heartbeat_timeout_ms, cancel_grace_ms)]
                {
                    let ready = old(self)@.before_round(
                        results,
                        now,
                        heartbeat_timeout_ms,
                        cancel_grace_ms,
                    );
                    let ids = ready.assigned_in_round(now);
                    deliveries@.len() == ids.len() && final(self)@ == ready.after_tick(
                        now,
                    ).after_deliveries(ids, deliveries@, ids.len() as int)
                },
            old(self)@.balanced() ==> final(self)@.balanced(),
            old(self)@.completed().subset_of(final(self)@.completed()),
    {
        let ghost start = self@;
        let count = self.ingest_available();
        let ghost results = choose|results: Seq<TaskResultView>|
            results.len() == count && self@ == #[trigger] start.after_results(results, count as int);
        self.evict_stale(now, heartbeat_timeout_ms);
        self.expire_deadlines(now);
        self.expire_cancellations(now, cancel_grace_ms);
        let ghost ready = self@;
        assert(ready == start.before_round(results, now, heartbeat_timeout_ms, cancel_grace_ms));
        let mut assignments = self.schedule(now);
        let ghost scheduled = self@;
        let ghost ids = ready.assigned_in_round(now);
        let ghost made = assignments@;
        assert(made.len() == ids.len());
        assert forall|i: int| 0 <= i < made.len() implies ids[i] == (#[trigger] made[i])@.task.id by {
            assert(assignment_entries(made, now)[i] == made[i]@.entry(now));
            assert(scheduled.in_flight[ready.in_flight.len() + i] == assignment_entries(
                made,
                now,
            )[i]);
        }
        let mut deliveries: Vec<Delivery> = Vec::new();
        while assignments.len() > 0
            invariant
                self.wf(),
                self.result_queue() == old(self).result_queue(),
                deliveries@.len() + assignments@.len() == made.len(),
                made.len() == ids.len(),
                assignments@ == made.subrange(deliveries@.len() as int, made.len() as int),
                forall|i: int| 0 <= i < made.len() ==> ids[i] == (#[trigger] made[i])@.task.id,
                self@ == scheduled.after_deliveries(ids, deliveries@, deliveries@.len() as int),
                old(self)@.balanced() ==> self@.balanced(),
                old(self)@.completed().subset_of(self@.completed()),
            decreases assignments@.len(),
        {
            let ghost done = deliveries@;
            let assignment = assignments.remove(0);
            assert(assignment == made[done.len() as int]);
            let delivery = self.deliver(assignment);
            deliveries.push(delivery);
            proof {
                let n = done.len() as int;
                assert(deliveries@.drop_last() =~= done);
                lemma_after_deliveries(scheduled, ids, done, delivery, n);
                assert(assignments@ =~= made.subrange(n + 1, made.len() as int));
            }
        }
        deliveries
    }

    /// Takes in every result that waits in the coordinator's own queue of
    /// results, one after the other, as [`SwarmCoordinator::ingest_result`]
    /// does, and says how many there were.
    pub fn ingest_available(&mut self) -> (count: usize)
        requires
            old(self).wf(),
        ensures
            final(self).wf(),
            final(self).result_queue() == old(self).result_queue(),
            final(self).inboxes() == old(self).inboxes(),
            exists|results: Seq<TaskResultView>|
                results.len() == count && final(self)@ == #[trigger] old(self)@.after_results(
                    results,
                    count as int,
                ),
            old(self)@.balanced() ==> final(self)@.balanced(),
            old(self)@.completed().subset_of(final(self)@.completed()),
    {
        let mut count: usize = 0;
        let ghost mut results: Seq<TaskResultView> = Seq::empty();
        loop
            invariant
                self.wf(),
                self.result_queue() == old(self).result_queue(),
                self.inboxes() == old(self).inboxes(),
                results.len() == count,
                self@ == old(self)@.after_results(results, count as int),
                old(self)@.balanced() ==> self@.balanced(),
                old(self)@.completed().subset_of(self@.completed()),
            decreases usize::MAX - count,
        {
            if count == usize::MAX {
                return count;
            }
            match try_receive(&mut self.result_receiver) {
                Ok(result) => {
                    proof {
                        lemma_after_results(old(self)@, results, result@, count as int);
                        results = results.push(result@);
                    }
                    self.ingest_result(result);
                    count = count + 1;
                },
                Err(_) => {
                    return count;
                },
            }
        }
    }
}

/// What becomes of the state when the first `n` deliveries are settled goes
/// by those deliveries alone.
proof fn lemma_after_deliveries(
    state: CoordinatorView,
    ids: Seq<TaskId>,
    deliveries: Seq<Delivery>,
    more: Delivery,
    n: int,
)
    requires
        0 <= n <= deliveries.len(),
    ensures
        state.after_deliveries(ids, deliveries.push(more), n) == state.after_deliveries(
            ids,
            deliveries,
            n,
        ),
    decreases n,
{
    if n > 0 {
        lemma_after_deliveries(state, ids, deliveries, more, n - 1);
        assert(deliveries.push(more)[n - 1] == deliveries[n - 1]);
    }
}

/// What becomes of the state when the first `n` results come in goes by
/// those results alone.
proof fn lemma_after_results(
    state: CoordinatorView,
    results: Seq<TaskResultView>,
    more: TaskResultView,
    n: int,
)
    requires
        0 <= n <= results.len(),
    ensures
        state.after_results(results.push(more), n) == state.after_results(results, n),
    decreases n,
{
    if n > 0 {
        lemma_after_results(state, results, more, n - 1);
        assert(results.push(more)[n - 1] == results[n - 1]);
    }
}

/// What is put into the inbox of a worker for an assignment: the task, as
/// the worker is to receive it.
pub fn inbox_message(assignment: Assignment) -> (message: InboxMessage)
    ensures
        message == InboxMessage::Task(assignment.task),
{
    InboxMessage::Task(assignment.task)
}

/// A task on its way to a worker.
#[derive(Debug, PartialEq, Eq)]
pub struct Assignment {
    /// The task, as the worker is to receive it.
    pub task: Task,
    /// The worker that the task was given to.
    pub worker_id: WorkerId,
}

/// The mathematical value of an [`Assignment`].
pub struct AssignmentView {
    pub task: TaskView,
    pub worker_id: WorkerId,
}

impl AssignmentView {
    /// The in-flight entry that was made with the assignment.
    pub open spec fn entry(self, now: Timestamp) -> InFlightView {
        InFlightView {
            task: self.task,
            worker_id: self.worker_id,
            assigned_at: now,
            cancel_requested_at: None,
        }
    }
}

impl View for Assignment {
    type V = AssignmentView;

    open spec fn view(&self) -> AssignmentView {
        AssignmentView { task: self.task@, worker_id: self.worker_id }
    }
}

/// The in-flight entries that were made with a list of assignments.
pub open spec fn assignment_entries(assignments: Seq<Assignment>, now: Timestamp) -> Seq<
    InFlightView,
> {
    assignments.map_values(|a: Assignment| a@.entry(now))
}

impl CoordinatorView {
    /// The state after the first `n` deliveries of the tasks with the given
    /// identifiers have been settled, one after the other: an assignment
    /// whose task was given back is undone, any other changes nothing.
    pub open spec fn after_deliveries(self, ids: Seq<TaskId>, deliveries: Seq<Delivery>, n: int) -> Self
        decreases n,
    {
        if n <= 0 {
            self
        } else {
            let settled = self.after_deliveries(ids, deliveries, n - 1);
            if deliveries[n - 1] == Delivery::Returned {
                settled.after_rollback(ids[n - 1])
            } else {
                settled
            }
        }
    }

    /// The assignment is in force: its task is in flight with its worker.
    pub open spec fn in_force(self, assignment: AssignmentView) -> bool {
        self.is_in_flight(assignment.task.id) && self.in_flight[position_in_flight(
            self.in_flight,
            assignment.task.id,
        )].worker_id == assignment.worker_id
    }
}

/// What became of an assignment that was to be delivered.
#[derive(Debug, Clone, Copy, PartialEq, Eq, Structural)]
pub enum Delivery {
    /// The task is in the inbox of its worker.
    Delivered,
    /// The inbox did not take the task; the assignment has been undone.
    Returned,
    /// The assignment was no longer in force.
    Dropped,
}

/// What became of a request to cancel a task.
#[derive(Debug, Clone, Copy, PartialEq, Eq, Structural)]
pub enum Cancellation {
    /// The task waited and is cancelled.
    Cancelled,
    /// The task is in flight; its worker has been asked to abandon it.
    Requested,
    /// The task is in flight and its cancellation had been asked for before.
    AlreadyRequested,
    /// The task has ended or is not known.
    Unknown,
}

/// The figures that the coordinator keeps. Rates are in thousandths.
#[derive(Debug, Clone, Copy, PartialEq, Eq, Structural)]
pub struct CoordinatorStats {
    /// Number of registered workers.
    pub total_workers: usize,
    /// Number of workers in service.
    pub active_workers: usize,
    /// Number of tasks that have ended.
    pub total_tasks_processed: u64,
    /// Tasks ended per second of uptime, in thousandths.
    pub tasks_per_second_milli: u64,
    /// Processing time per ended task, in whole milliseconds.
    pub average_processing_time_ms: u64,
    /// Failed tasks per ended task, in thousandths.
    pub error_rate_permille: u64,
}

/// Number of workers in service.
pub open spec fn in_service_count(workers: Seq<WorkerRecordView>) -> nat
    decreases workers.len(),
{
    if workers.len() == 0 {
        0
    } else {
        in_service_count(workers.drop_last()) + if workers.last().status.in_service() {
            1nat
        } else {
            0nat
        }
    }
}

/// A quotient, or the largest number that fits where the quotient does not;
/// zero where the divisor is zero.
pub open spec fn bounded_quotient(dividend: int, divisor: int) -> u64 {
    if divisor <= 0 {
        0
    } else if dividend / divisor > u64::MAX {
        u64::MAX
    } else {
        (dividend / divisor) as u64
    }
}

impl CoordinatorView {
    /// The figures of the coordinator, for an uptime of `uptime_ms`
    /// milliseconds. Quotients are rounded down.
    pub open spec fn stats(self, uptime_ms: u64) -> CoordinatorStats {
        CoordinatorStats {
            total_workers: self.workers.len() as usize,
            active_workers: in_service_count(self.workers) as usize,
            total_tasks_processed: self.tasks_processed,
            tasks_per_second_milli: bounded_quotient(
                self.tasks_processed * 1_000_000,
                uptime_ms as int,
            ),
            average_processing_time_ms: bounded_quotient(
                self.processing_time_ms as int,
                self.tasks_processed as int,
            ),
            error_rate_permille: bounded_quotient(
                self.tasks_failed * 1000,
                self.tasks_processed as int,
            ),
        }
    }
}

/// Whether the deadline of the task has passed at `now`.
pub fn is_overdue(task: &Task, now: Timestamp) -> (late: bool)
    ensures
        late == overdue(task@, now),
{
    match task.deadline {
        Some(deadline) => now > deadline,
        None => false,
    }
}

/// Whether a request to cancel the task has gone unanswered for longer than
/// `grace_ms`.
pub fn is_cancellation_overdue(entry: &InFlightEntry, now: Timestamp, grace_ms: u64) -> (late: bool)
    ensures
        late == cancellation_overdue(entry@, now, grace_ms),
{
    match entry.cancel_requested_at {
        Some(requested) => {
            let waited: i128 = now as i128 - requested as i128;
            waited > grace_ms as i128
        },
        None => false,
    }
}

/// What became of a result.
#[derive(Debug, Clone, Copy, PartialEq, Eq, Structural)]
pub enum Ingestion {
    /// The result was not final, or its task was not in flight.
    Ignored,
    /// The task failed and waits for another attempt.
    Retried,
    /// The task has ended.
    Finished,
}

/// The capacity left grows with the workers that are counted.
proof fn lemma_free_capacity_grows(workers: Seq<WorkerRecordView>, n: int)
    requires
        0 <= n <= workers.len(),
    ensures
        free_capacity(workers.subrange(0, n)) <= free_capacity(workers),
    decreases workers.len() - n,
{
    if n < workers.len() {
        assert(workers.subrange(0, n + 1).drop_last() =~= workers.subrange(0, n));
        lemma_free_capacity_grows(workers, n + 1);
    } else {
        assert(workers.subrange(0, n) =~= workers);
    }
}

} // verus!
