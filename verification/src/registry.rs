//! The worker registry: who is alive, what they can do, how loaded they are.
//!
//! The registry keeps one record per worker and, beside it, the sending end of
//! the worker's inbox. Records are only ever changed through the registry.

use crate::channel::bounded_queue;
use crate::task::Task;
use crate::types::{TaskId, TaskStatus, Timestamp, WorkerId};
use crate::worker::{
    capability_views, clone_capabilities, PerformanceProfile, WorkerCapability,
    WorkerCapabilityView, WorkerConfig, WorkerConfigView, WorkerHealth, WorkerHealthView,
    WorkerStatus, WorkerStatusView, WorkerType, WorkerTypeView,
};
use tokio::sync::mpsc::{Receiver, Sender};
use vstd::prelude::*;

verus! {

/// What travels through a worker's inbox.
#[derive(Debug, PartialEq, Eq)]
pub enum InboxMessage {
    /// A task to run.
    Task(Task),
    /// The task with this identifier is to be abandoned.
    Cancel(TaskId),
    /// The swarm is shutting down.
    Shutdown,
}

/// What the registry knows of one worker.
#[derive(Debug, PartialEq, Eq)]
pub struct WorkerRecord {
    pub id: WorkerId,
    pub name: String,
    pub worker_type: WorkerType,
    pub capabilities: Vec<WorkerCapability>,
    pub performance_profile: PerformanceProfile,
    pub max_concurrent_tasks: usize,
    pub current_load: usize,
    pub status: WorkerStatus,
    pub last_heartbeat: Timestamp,
    pub error_count: u32,
    pub success_count: u32,
}

/// The mathematical value of a [`WorkerRecord`].
pub struct WorkerRecordView {
    pub id: WorkerId,
    pub name: Seq<char>,
    pub worker_type: WorkerTypeView,
    pub capabilities: Seq<WorkerCapabilityView>,
    pub performance_profile: PerformanceProfile,
    pub max_concurrent_tasks: usize,
    pub current_load: usize,
    pub status: WorkerStatusView,
    pub last_heartbeat: Timestamp,
    pub error_count: u32,
    pub success_count: u32,
}

impl WorkerRecordView {
    /// The record of a worker that has just registered under `id`: it is
    /// starting, idle, and was last heard of at `now`.
    pub open spec fn registered(id: WorkerId, config: WorkerConfigView, now: Timestamp) -> Self {
        WorkerRecordView {
            id,
            name: config.name,
            worker_type: config.worker_type,
            capabilities: config.capabilities,
            performance_profile: config.performance_profile,
            max_concurrent_tasks: config.max_concurrent_tasks,
            current_load: 0,
            status: WorkerStatusView::Starting,
            last_heartbeat: now,
            error_count: 0,
            success_count: 0,
        }
    }

    /// The worker can take one more task.
    pub open spec fn has_capacity(self) -> bool {
        self.current_load < self.max_concurrent_tasks
    }

    /// The load never exceeds the worker's limit.
    pub open spec fn wf(self) -> bool {
        self.current_load <= self.max_concurrent_tasks
    }

    /// The record after a heartbeat. The time, the counters and the load are
    /// taken from the report, the load no higher than the worker's limit; the
    /// status is taken where the life cycle permits the change.
    pub open spec fn after_heartbeat(self, health: WorkerHealthView) -> Self {
        WorkerRecordView {
            last_heartbeat: health.last_heartbeat,
            current_load: if health.current_load <= self.max_concurrent_tasks {
                health.current_load
            } else {
                self.max_concurrent_tasks
            },
            status: if self.status.may_become(health.status) {
                health.status
            } else {
                self.status
            },
            error_count: health.error_count,
            success_count: health.success_count,
            ..self
        }
    }

    /// The worker has not been heard of for longer than `timeout_ms`.
    pub open spec fn stale(self, now: Timestamp, timeout_ms: u64) -> bool {
        now - self.last_heartbeat > timeout_ms
    }

    /// The record after one more task has been given to the worker: the load
    /// is one higher and a worker in service is busy.
    pub open spec fn after_assignment(self) -> Self {
        WorkerRecordView {
            current_load: (self.current_load + 1) as usize,
            status: if self.status.in_service() {
                WorkerStatusView::Busy
            } else {
                self.status
            },
            ..self
        }
    }

    /// The record after a task has left the worker: the load is one lower,
    /// never below zero, and a busy worker without load is running again.
    pub open spec fn after_release(self) -> Self {
        let load = if self.current_load > 0 {
            (self.current_load - 1) as usize
        } else {
            0
        };
        WorkerRecordView {
            current_load: load,
            status: if self.status is Busy && load == 0 {
                WorkerStatusView::Running
            } else {
                self.status
            },
            ..self
        }
    }

    /// The record after the worker has reported how a task ended: a completed
    /// task counts as a success and a failed one as an error. The counters
    /// stop at the largest number they can hold.
    pub open spec fn after_result(self, status: TaskStatus) -> Self {
        WorkerRecordView {
            success_count: if status == TaskStatus::Completed && self.success_count < u32::MAX {
                (self.success_count + 1) as u32
            } else {
                self.success_count
            },
            error_count: if status == TaskStatus::Failed && self.error_count < u32::MAX {
                (self.error_count + 1) as u32
            } else {
                self.error_count
            },
            ..self
        }
    }
}

impl View for WorkerRecord {
    type V = WorkerRecordView;

    open spec fn view(&self) -> WorkerRecordView {
        WorkerRecordView {
            id: self.id,
            name: self.name@,
            worker_type: self.worker_type@,
            capabilities: capability_views(self.capabilities@),
            performance_profile: self.performance_profile,
            max_concurrent_tasks: self.max_concurrent_tasks,
            current_load: self.current_load,
            status: self.status@,
            last_heartbeat: self.last_heartbeat,
            error_count: self.error_count,
            success_count: self.success_count,
        }
    }
}

impl Clone for WorkerRecord {
    fn clone(&self) -> (copy: Self)
        ensures
            copy@ == self@,
    {
        WorkerRecord {
            id: self.id,
            name: self.name.clone(),
            worker_type: self.worker_type.clone(),
            capabilities: clone_capabilities(&self.capabilities),
            performance_profile: self.performance_profile,
            max_concurrent_tasks: self.max_concurrent_tasks,
            current_load: self.current_load,
            status: self.status.clone(),
            last_heartbeat: self.last_heartbeat,
            error_count: self.error_count,
            success_count: self.success_count,
        }
    }
}

impl WorkerRecord {
    /// Whether the worker can take one more task.
    pub fn has_capacity(&self) -> (b: bool)
        ensures
            b == self@.has_capacity(),
    {
        self.current_load < self.max_concurrent_tasks
    }

    /// Whether the worker has not been heard of for longer than `timeout_ms`.
    pub fn is_stale(&self, now: Timestamp, timeout_ms: u64) -> (b: bool)
        ensures
            b == self@.stale(now, timeout_ms),
    {
        let age: i128 = now as i128 - self.last_heartbeat as i128;
        age > timeout_ms as i128
    }
}

/// The mathematical value of a list of worker records.
pub open spec fn record_views(records: Seq<WorkerRecord>) -> Seq<WorkerRecordView> {
    records.map_values(|r: WorkerRecord| r@)
}

/// Position of the worker with the given identifier, or the number of workers
/// where there is no such worker.
pub open spec fn position_of_worker(workers: Seq<WorkerRecordView>, id: WorkerId) -> int
    decreases workers.len(),
{
    if workers.len() == 0 {
        0
    } else if workers[0].id == id {
        0
    } else {
        1 + position_of_worker(workers.drop_first(), id)
    }
}

/// Whether a worker with the given identifier is registered.
pub open spec fn is_registered(workers: Seq<WorkerRecordView>, id: WorkerId) -> bool {
    position_of_worker(workers, id) < workers.len()
}

/// No two workers have the same identifier.
pub open spec fn distinct_workers(workers: Seq<WorkerRecordView>) -> bool {
    forall|i: int, j: int|
        0 <= i < j < workers.len() ==> (#[trigger] workers[i]).id != (#[trigger] workers[j]).id
}

/// Every record respects its worker's limit.
pub open spec fn loads_within_limits(workers: Seq<WorkerRecordView>) -> bool {
    forall|i: int| 0 <= i < workers.len() ==> (#[trigger] workers[i]).wf()
}

/// Those of the first `n` workers that are not stale, in their order.
pub open spec fn without_stale(
    workers: Seq<WorkerRecordView>,
    now: Timestamp,
    timeout_ms: u64,
    n: int,
) -> Seq<WorkerRecordView>
    decreases n,
{
    if n <= 0 {
        Seq::empty()
    } else if workers[n - 1].stale(now, timeout_ms) {
        without_stale(workers, now, timeout_ms, n - 1)
    } else {
        without_stale(workers, now, timeout_ms, n - 1).push(workers[n - 1])
    }
}

/// The identifiers of those of the first `n` workers that are stale, in
/// the order of their records.
pub open spec fn stale_ids(workers: Seq<WorkerRecordView>, now: Timestamp, timeout_ms: u64, n: int) -> Seq<
    WorkerId,
>
    decreases n,
{
    if n <= 0 {
        Seq::empty()
    } else if workers[n - 1].stale(now, timeout_ms) {
        stale_ids(workers, now, timeout_ms, n - 1).push(workers[n - 1].id)
    } else {
        stale_ids(workers, now, timeout_ms, n - 1)
    }
}

/// The inboxes of those of the first `n` workers that are not stale, in
/// their order, where the inbox of each worker stands where its record does.
pub open spec fn inboxes_without_stale(
    workers: Seq<WorkerRecordView>,
    inboxes: Seq<Sender<InboxMessage>>,
    now: Timestamp,
    timeout_ms: u64,
    n: int,
) -> Seq<Sender<InboxMessage>>
    decreases n,
{
    if n <= 0 {
        Seq::empty()
    } else if workers[n - 1].stale(now, timeout_ms) {
        inboxes_without_stale(workers, inboxes, now, timeout_ms, n - 1)
    } else {
        inboxes_without_stale(workers, inboxes, now, timeout_ms, n - 1).push(inboxes[n - 1])
    }
}

/// `position_of_worker` finds the first record with the identifier, and
/// finds none only if there is none.
pub proof fn lemma_position_of_worker(workers: Seq<WorkerRecordView>, id: WorkerId)
    ensures
        0 <= position_of_worker(workers, id) <= workers.len(),
        position_of_worker(workers, id) < workers.len() ==> workers[position_of_worker(
            workers,
            id,
        )].id == id,
        forall|i: int|
            0 <= i < position_of_worker(workers, id) ==> (#[trigger] workers[i]).id != id,
    decreases workers.len(),
{
    if workers.len() > 0 && workers[0].id != id {
        let rest = workers.drop_first();
        lemma_position_of_worker(rest, id);
        assert forall|i: int| 0 <= i < position_of_worker(workers, id) implies (
        #[trigger] workers[i]).id != id by {
            if i > 0 {
                assert(workers[i] == rest[i - 1]);
            }
        }
    }
}

/// Among workers with distinct identifiers, a worker stands where
/// `position_of_worker` finds its identifier.
pub proof fn lemma_position_of_distinct(workers: Seq<WorkerRecordView>, index: int)
    requires
        distinct_workers(workers),
        0 <= index < workers.len(),
    ensures
        position_of_worker(workers, workers[index].id) == index,
{
    lemma_position_of_worker(workers, workers[index].id);
    let found = position_of_worker(workers, workers[index].id);
    if found < index {
        assert(workers[found].id != workers[index].id);
    }
}

/// Why a worker could not be registered.
#[derive(Debug, Clone, Copy, PartialEq, Eq, Structural)]
pub enum RegisterError {
    /// A worker with this identifier is registered already.
    AlreadyRegistered(WorkerId),
}

/// The directory of live workers.
pub struct WorkerRegistry {
    records: Vec<WorkerRecord>,
    inboxes: Vec<Sender<InboxMessage>>,
}

impl View for WorkerRegistry {
    type V = Seq<WorkerRecordView>;

    closed spec fn view(&self) -> Seq<WorkerRecordView> {
        record_views(self.records@)
    }
}

/// The capacity of the inbox of a worker that takes `max_concurrent_tasks`
/// tasks at a time: that number, but at least one and at most an eighth of
/// the address space, the bounds between which a queue can be made.
pub open spec fn inbox_capacity(max_concurrent_tasks: usize) -> usize {
    if max_concurrent_tasks == 0 {
        1
    } else if max_concurrent_tasks > usize::MAX / 8 {
        (usize::MAX / 8) as usize
    } else {
        max_concurrent_tasks
    }
}

/// The capacity of the inbox of a worker that takes `max_concurrent_tasks`
/// tasks at a time.
pub fn capacity_of_inbox(max_concurrent_tasks: usize) -> (capacity: usize)
    ensures
        capacity == inbox_capacity(max_concurrent_tasks),
        0 < capacity <= usize::MAX / 8,
{
    if max_concurrent_tasks == 0 {
        1
    } else if max_concurrent_tasks > usize::MAX / 8 {
        usize::MAX / 8
    } else {
        max_concurrent_tasks
    }
}

impl WorkerRegistry {
    /// The registry is well formed: identifiers are distinct, loads are within
    /// limits, and every record has its inbox.
    pub closed spec fn wf(&self) -> bool {
        &&& distinct_workers(self@)
        &&& loads_within_limits(self@)
        &&& self.inboxes@.len() == self.records@.len()
    }

    /// The sending ends of the inboxes of the workers, each where the record
    /// of its worker stands.
    pub closed spec fn inboxes(&self) -> Seq<Sender<InboxMessage>> {
        self.inboxes@
    }

    /// A well-formed registry has distinct identifiers, loads within limits,
    /// and one inbox for every worker.
    pub proof fn lemma_wf(&self)
        requires
            self.wf(),
        ensures
            distinct_workers(self@),
            loads_within_limits(self@),
            self.inboxes().len() == self@.len(),
    {
    }

    /// A registry without workers.
    pub fn new() -> (registry: WorkerRegistry)
        ensures
            registry@ == Seq::<WorkerRecordView>::empty(),
            registry.wf(),
    {
        let registry = WorkerRegistry { records: Vec::new(), inboxes: Vec::new() };
        assert(registry@ =~= Seq::<WorkerRecordView>::empty());
        registry
    }

    /// Number of registered workers.
    pub fn len(&self) -> (n: usize)
        ensures
            n == self@.len(),
    {
        self.records.len()
    }

    /// Position of the worker with the given identifier.
    pub fn position(&self, id: WorkerId) -> (at: usize)
        ensures
            at == position_of_worker(self@, id),
            at <= self@.len(),
    {
        let mut at: usize = 0;
        assert(self@.skip(0) =~= self@);
        while at < self.records.len() && self.records[at].id != id
            invariant
                at <= self.records@.len(),
                position_of_worker(self@, id) == at + position_of_worker(self@.skip(at as int), id),
            decreases self.records@.len() - at,
        {
            proof {
                let rest = self@.skip(at as int);
                assert(rest[0] == self@[at as int]);
                assert(rest.drop_first() =~= self@.skip(at + 1));
            }
            at = at + 1;
        }
        proof {
            let rest = self@.skip(at as int);
            if at < self.records@.len() {
                assert(rest[0] == self@[at as int]);
            }
        }
        at
    }

    /// The record of the worker with the given identifier.
    pub fn get(&self, id: WorkerId) -> (record: Option<&WorkerRecord>)
        ensures
            match record {
                Some(r) => is_registered(self@, id) && r@ == self@[position_of_worker(self@, id)],
                None => !is_registered(self@, id),
            },
    {
        let at = self.position(id);
        if at < self.records.len() {
            Some(&self.records[at])
        } else {
            None
        }
    }

    /// The records, for reading.
    pub fn records(&self) -> (records: &Vec<WorkerRecord>)
        ensures
            record_views(records@) == self@,
    {
        &self.records
    }

    /// A copy of every record, in the order of registration.
    pub fn snapshot(&self) -> (records: Vec<WorkerRecord>)
        ensures
            record_views(records@) == self@,
    {
        let records = self.records.clone();
        assert(record_views(records@) =~= record_views(self.records@));
        records
    }

    /// Enters a worker under `id` and makes its inbox, whose receiving end is
    /// returned. The worker starts in the state `Starting`, without load.
    /// Fails, and changes nothing, if `id` is registered already.
    pub fn register(&mut self, id: WorkerId, config: WorkerConfig, now: Timestamp) -> (outcome:
        Result<Receiver<InboxMessage>, RegisterError>)
        requires
            old(self).wf(),
        ensures
            final(self).wf(),
            is_registered(old(self)@, id) ==> outcome == Err::<Receiver<InboxMessage>, RegisterError>(
                RegisterError::AlreadyRegistered(id),
            ) && final(self)@ == old(self)@,
            !is_registered(old(self)@, id) ==> outcome.is_ok() && final(self)@ == old(self)@.push(
                WorkerRecordView::registered(id, config@, now),
            ),
            is_registered(old(self)@, id) ==> final(self).inboxes() == old(self).inboxes(),
            !is_registered(old(self)@, id) ==> final(self).inboxes().len() == old(
                self,
            ).inboxes().len() + 1 && final(self).inboxes().drop_last() == old(self).inboxes(),
    {
        let at = self.position(id);
        if at < self.records.len() {
            return Err(RegisterError::AlreadyRegistered(id));
        }
        let (sender, receiver) = bounded_queue::<InboxMessage>(
            capacity_of_inbox(config.max_concurrent_tasks),
        );
        let record = WorkerRecord {
            id,
            name: config.name,
            worker_type: config.worker_type,
            capabilities: config.capabilities,
            performance_profile: config.performance_profile,
            max_concurrent_tasks: config.max_concurrent_tasks,
            current_load: 0,
            status: WorkerStatus::Starting,
            last_heartbeat: now,
            error_count: 0,
            success_count: 0,
        };
        proof {
            lemma_position_of_worker(old(self)@, id);
        }
        self.records.push(record);
        self.inboxes.push(sender);
        assert(self@ =~= old(self)@.push(WorkerRecordView::registered(id, config@, now)));
        assert(self.inboxes().drop_last() =~= old(self).inboxes());
        Ok(receiver)
    }

    /// Removes the worker with the given identifier and drops the sending end
    /// of its inbox, which closes the inbox. Says whether there was such a
    /// worker.
    pub fn unregister(&mut self, id: WorkerId) -> (removed: bool)
        requires
            old(self).wf(),
        ensures
            final(self).wf(),
            removed == is_registered(old(self)@, id),
            removed ==> final(self)@ == old(self)@.remove(position_of_worker(old(self)@, id)),
            !removed ==> final(self)@ == old(self)@,
            removed ==> final(self).inboxes() == old(self).inboxes().remove(
                position_of_worker(old(self)@, id),
            ),
            !removed ==> final(self).inboxes() == old(self).inboxes(),
    {
        let at = self.position(id);
        if at < self.records.len() {
            self.records.remove(at);
            self.inboxes.remove(at);
            assert(self@ =~= old(self)@.remove(at as int));
            true
        } else {
            false
        }
    }

    /// Removes every worker that has not been heard of for longer than
    /// `timeout_ms`, which closes its inbox. The identifiers of the workers
    /// that went are returned, in the order of their registration; the
    /// others stay in their order.
    pub fn evict_stale(&mut self, now: Timestamp, timeout_ms: u64) -> (evicted: Vec<WorkerId>)
        requires
            old(self).wf(),
        ensures
            final(self).wf(),
            final(self)@ == without_stale(old(self)@, now, timeout_ms, old(self)@.len() as int),
            evicted@ == stale_ids(old(self)@, now, timeout_ms, old(self)@.len() as int),
            final(self).inboxes() == inboxes_without_stale(
                old(self)@,
                old(self).inboxes(),
                now,
                timeout_ms,
                old(self)@.len() as int,
            ),
    {
        let mut evicted: Vec<WorkerId> = Vec::new();
        let mut at: usize = 0;
        let ghost before = self@;
        let ghost inboxes = self.inboxes();
        let ghost mut seen: int = 0;
        assert(self@ =~= Seq::<WorkerRecordView>::empty() + before.subrange(0, before.len() as int));
        assert(self.inboxes() =~= Seq::<Sender<InboxMessage>>::empty() + inboxes.subrange(
            0,
            inboxes.len() as int,
        ));
        while at < self.records.len()
            invariant
                self.wf(),
                before == old(self)@,
                0 <= seen <= before.len(),
                at == without_stale(before, now, timeout_ms, seen).len(),
                self@ == without_stale(before, now, timeout_ms, seen) + before.subrange(
                    seen,
                    before.len() as int,
                ),
                evicted@ == stale_ids(before, now, timeout_ms, seen),
                inboxes == old(self).inboxes(),
                inboxes.len() == before.len(),
                self.inboxes() == inboxes_without_stale(before, inboxes, now, timeout_ms, seen)
                    + inboxes.subrange(seen, inboxes.len() as int),
                at == inboxes_without_stale(before, inboxes, now, timeout_ms, seen).len(),
            decreases before.len() - seen,
        {
            let ghost kept = without_stale(before, now, timeout_ms, seen);
            let ghost kept_inboxes = inboxes_without_stale(before, inboxes, now, timeout_ms, seen);
            let ghost here = self@;
            assert(here[at as int] == before[seen]);
            assert(self@[at as int] == self.records@[at as int]@);
            if self.records[at].is_stale(now, timeout_ms) {
                let id = self.records[at].id;
                proof {
                    lemma_position_of_distinct(self@, at as int);
                }
                self.unregister(id);
                evicted.push(id);
                assert(self@ =~= kept + before.subrange(seen + 1, before.len() as int));
                assert(self.inboxes() =~= kept_inboxes + inboxes.subrange(
                    seen + 1,
                    inboxes.len() as int,
                ));
            } else {
                at = at + 1;
                assert(self@ =~= kept.push(before[seen]) + before.subrange(
                    seen + 1,
                    before.len() as int,
                ));
                assert(self.inboxes() =~= kept_inboxes.push(inboxes[seen]) + inboxes.subrange(
                    seen + 1,
                    inboxes.len() as int,
                ));
            }
            proof {
                seen = seen + 1;
            }
        }
        proof {
            let kept = without_stale(before, now, timeout_ms, seen);
            assert(seen == before.len());
            assert(self@ =~= kept);
            assert(self.inboxes() =~= inboxes_without_stale(before, inboxes, now, timeout_ms, seen));
        }
        evicted
    }

    /// Takes note of a heartbeat. A heartbeat of an unknown worker is ignored.
    pub fn heartbeat(&mut self, id: WorkerId, health: WorkerHealth)
        requires
            old(self).wf(),
        ensures
            final(self).wf(),
            !is_registered(old(self)@, id) ==> final(self)@ == old(self)@,
            is_registered(old(self)@, id) ==> final(self)@ == old(self)@.update(
                position_of_worker(old(self)@, id),
                old(self)@[position_of_worker(old(self)@, id)].after_heartbeat(health@),
            ),
            final(self).inboxes() == old(self).inboxes(),
    {
        let at = self.position(id);
        if at < self.records.len() {
            let ghost before = self.records@[at as int]@;
            let record = &mut self.records[at];
            if record.status.can_become(&health.status) {
                record.status = health.status;
            }
            record.last_heartbeat = health.last_heartbeat;
            record.current_load = if health.current_load <= record.max_concurrent_tasks {
                health.current_load
            } else {
                record.max_concurrent_tasks
            };
            record.error_count = health.error_count;
            record.success_count = health.success_count;
            assert(self@ =~= old(self)@.update(at as int, before.after_heartbeat(health@)));
        }
    }

    /// Counts one more task for the worker at the given position.
    pub(crate) fn note_assignment(&mut self, at: usize)
        requires
            old(self).wf(),
            at < old(self)@.len(),
            old(self)@[at as int].has_capacity(),
        ensures
            final(self).wf(),
            final(self)@ == old(self)@.update(at as int, old(self)@[at as int].after_assignment()),
            final(self).inboxes() == old(self).inboxes(),
    {
        let ghost before = self.records@[at as int]@;
        let record = &mut self.records[at];
        record.current_load = record.current_load + 1;
        if record.status.is_in_service() {
            record.status = WorkerStatus::Busy;
        }
        assert(self@ =~= old(self)@.update(at as int, before.after_assignment()));
    }

    /// Counts one task less for the worker at the given position.
    pub(crate) fn note_release(&mut self, at: usize)
        requires
            old(self).wf(),
            at < old(self)@.len(),
        ensures
            final(self).wf(),
            final(self)@ == old(self)@.update(at as int, old(self)@[at as int].after_release()),
            final(self).inboxes() == old(self).inboxes(),
    {
        let ghost before = self.records@[at as int]@;
        let record = &mut self.records[at];
        if record.current_load > 0 {
            record.current_load = record.current_load - 1;
        }
        let idle_again = record.current_load == 0 && match record.status {
            WorkerStatus::Busy => true,
            _ => false,
        };
        if idle_again {
            record.status = WorkerStatus::Running;
        }
        assert(self@ =~= old(self)@.update(at as int, before.after_release()));
    }

    /// Counts the end of a task for the worker at the given position.
    pub(crate) fn note_result(&mut self, at: usize, status: TaskStatus)
        requires
            old(self).wf(),
            at < old(self)@.len(),
        ensures
            final(self).wf(),
            final(self)@ == old(self)@.update(at as int, old(self)@[at as int].after_result(status)),
            final(self).inboxes() == old(self).inboxes(),
    {
        let ghost before = self.records@[at as int]@;
        let record = &mut self.records[at];
        if status == TaskStatus::Completed && record.success_count < u32::MAX {
            record.success_count = record.success_count + 1;
        }
        if status == TaskStatus::Failed && record.error_count < u32::MAX {
            record.error_count = record.error_count + 1;
        }
        assert(self@ =~= old(self)@.update(at as int, before.after_result(status)));
    }

    /// The sending end of the inbox of the worker at the given position.
    pub(crate) fn inbox(&self, at: usize) -> (sender: &Sender<InboxMessage>)
        requires
            self.wf(),
            at < self@.len(),
        ensures
            *sender == self.inboxes()[at as int],
    {
        &self.inboxes[at]
    }
}

} // verus!
