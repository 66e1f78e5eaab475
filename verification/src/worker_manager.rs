//! The worker manager: it starts the workers that a deployment is configured
//! with and keeps a list of them.

use crate::ident::fresh_id;
use crate::tally::{with_all, with_one_more, Tally};
use crate::types::{DocumentType, Timestamp, WorkerId};
use crate::worker::{WorkerStatus, WorkerStatusView};
use vstd::prelude::*;

verus! {

/// How a managed worker performs on average. The CPU intensity is a
/// single-precision number, held here as its bit pattern.
#[derive(Debug, Clone, Copy, PartialEq, Eq, Structural)]
pub struct PerformanceProfile {
    pub avg_processing_time_ms: u64,
    pub memory_usage_mb: u64,
    pub cpu_intensity_bits: u32,
}

/// Something a managed worker can do with documents.
#[derive(Debug, PartialEq, Eq)]
pub struct WorkerCapability {
    pub name: String,
    pub supported_types: Vec<DocumentType>,
    pub max_concurrent_documents: usize,
    pub performance_profile: PerformanceProfile,
}

/// The mathematical value of a [`WorkerCapability`].
pub struct WorkerCapabilityView {
    pub name: Seq<char>,
    pub supported_types: Seq<DocumentType>,
    pub max_concurrent_documents: usize,
    pub performance_profile: PerformanceProfile,
}

impl View for WorkerCapability {
    type V = WorkerCapabilityView;

    open spec fn view(&self) -> WorkerCapabilityView {
        WorkerCapabilityView {
            name: self.name@,
            supported_types: self.supported_types@,
            max_concurrent_documents: self.max_concurrent_documents,
            performance_profile: self.performance_profile,
        }
    }
}

impl Clone for WorkerCapability {
    fn clone(&self) -> (copy: Self)
        ensures
            copy@ == self@,
    {
        WorkerCapability {
            name: self.name.clone(),
            supported_types: self.supported_types.clone(),
            max_concurrent_documents: self.max_concurrent_documents,
            performance_profile: self.performance_profile,
        }
    }
}

/// The mathematical value of a list of capabilities.
pub open spec fn capability_views(capabilities: Seq<WorkerCapability>) -> Seq<WorkerCapabilityView> {
    capabilities.map_values(|c: WorkerCapability| c@)
}

/// A copy of a list of capabilities.
pub fn clone_capabilities(capabilities: &Vec<WorkerCapability>) -> (copy: Vec<WorkerCapability>)
    ensures
        capability_views(copy@) == capability_views(capabilities@),
{
    let copy = capabilities.clone();
    assert(capability_views(copy@) =~= capability_views(capabilities@));
    copy
}

/// How many workers of a kind are to be started, and with what.
#[derive(Debug, PartialEq, Eq)]
pub struct WorkerStartupConfig {
    pub worker_type: String,
    pub capabilities: Vec<WorkerCapability>,
    pub instance_count: usize,
    pub startup_delay_ms: u64,
    pub health_check_interval_ms: u64,
}

/// The mathematical value of a [`WorkerStartupConfig`].
pub struct WorkerStartupConfigView {
    pub worker_type: Seq<char>,
    pub capabilities: Seq<WorkerCapabilityView>,
    pub instance_count: usize,
    pub startup_delay_ms: u64,
    pub health_check_interval_ms: u64,
}

impl View for WorkerStartupConfig {
    type V = WorkerStartupConfigView;

    open spec fn view(&self) -> WorkerStartupConfigView {
        WorkerStartupConfigView {
            worker_type: self.worker_type@,
            capabilities: capability_views(self.capabilities@),
            instance_count: self.instance_count,
            startup_delay_ms: self.startup_delay_ms,
            health_check_interval_ms: self.health_check_interval_ms,
        }
    }
}

/// The mathematical value of a list of configurations.
pub open spec fn config_views(configs: Seq<WorkerStartupConfig>) -> Seq<WorkerStartupConfigView> {
    configs.map_values(|c: WorkerStartupConfig| c@)
}

/// A worker that the manager has started.
#[derive(Debug, PartialEq, Eq)]
pub struct WorkerInstance {
    pub id: WorkerId,
    pub worker_type: String,
    pub capabilities: Vec<WorkerCapability>,
    pub status: WorkerStatus,
    pub started_at: Timestamp,
    pub last_health_check: Option<Timestamp>,
}

/// The mathematical value of a [`WorkerInstance`].
pub struct WorkerInstanceView {
    pub id: WorkerId,
    pub worker_type: Seq<char>,
    pub capabilities: Seq<WorkerCapabilityView>,
    pub status: WorkerStatusView,
    pub started_at: Timestamp,
    pub last_health_check: Option<Timestamp>,
}

impl WorkerInstanceView {
    /// Whether one of the capabilities of the worker covers the format.
    pub open spec fn handles(self, document_type: DocumentType) -> bool {
        exists|k: int|
            0 <= k < self.capabilities.len() && (
            #[trigger] self.capabilities[k]).supported_types.contains(document_type)
    }

    /// The names of the capabilities of the worker.
    pub open spec fn capability_names(self) -> Seq<Seq<char>> {
        self.capabilities.map_values(|c: WorkerCapabilityView| c.name)
    }
}

impl View for WorkerInstance {
    type V = WorkerInstanceView;

    open spec fn view(&self) -> WorkerInstanceView {
        WorkerInstanceView {
            id: self.id,
            worker_type: self.worker_type@,
            capabilities: capability_views(self.capabilities@),
            status: self.status@,
            started_at: self.started_at,
            last_health_check: self.last_health_check,
        }
    }
}

/// The mathematical value of a list of workers.
pub open spec fn instance_views(workers: Seq<WorkerInstance>) -> Seq<WorkerInstanceView> {
    workers.map_values(|w: WorkerInstance| w@)
}

/// The mathematical value of a list of references to workers.
pub open spec fn reference_views(workers: Seq<&WorkerInstance>) -> Seq<WorkerInstanceView> {
    workers.map_values(|w: &WorkerInstance| w@)
}

/// Position of the first worker with the given identifier, or the number of
/// workers where there is none.
pub open spec fn position_of_instance(workers: Seq<WorkerInstanceView>, id: WorkerId) -> int
    decreases workers.len(),
{
    if workers.len() == 0 {
        0
    } else if workers[0].id == id {
        0
    } else {
        1 + position_of_instance(workers.drop_first(), id)
    }
}

/// `position_of_instance` gives a position among the workers, or their
/// number.
pub proof fn lemma_position_of_instance(workers: Seq<WorkerInstanceView>, id: WorkerId)
    ensures
        0 <= position_of_instance(workers, id) <= workers.len(),
        position_of_instance(workers, id) < workers.len() ==> workers[position_of_instance(
            workers,
            id,
        )].id == id,
    decreases workers.len(),
{
    if workers.len() > 0 && workers[0].id != id {
        lemma_position_of_instance(workers.drop_first(), id);
    }
}

/// The workers after one has been started: it takes the place of the worker
/// with the same identifier, or stands at the end if there is none.
pub open spec fn with_instance(workers: Seq<WorkerInstanceView>, worker: WorkerInstanceView) -> Seq<
    WorkerInstanceView,
> {
    let at = position_of_instance(workers, worker.id);
    if at < workers.len() {
        workers.update(at, worker)
    } else {
        workers.push(worker)
    }
}

/// The worker as it is once it has been started at `now`: running, and
/// checked at `now`.
pub open spec fn started(worker: WorkerInstanceView, now: Timestamp) -> WorkerInstanceView {
    WorkerInstanceView {
        status: WorkerStatusView::Running,
        last_health_check: Some(now),
        ..worker
    }
}

/// A worker of the given type and capabilities as it is when it has just
/// been started at `now` under the given identifier.
pub open spec fn instance_of(
    worker_type: Seq<char>,
    capabilities: Seq<WorkerCapabilityView>,
    id: WorkerId,
    now: Timestamp,
) -> WorkerInstanceView {
    WorkerInstanceView {
        id,
        worker_type,
        capabilities,
        status: WorkerStatusView::Running,
        started_at: now,
        last_health_check: Some(now),
    }
}

/// How long to pause, in milliseconds, when so many workers of a
/// configuration have been started: the delay of the configuration between
/// one worker and the next, and not at all after the last.
pub open spec fn startup_pause(config: WorkerStartupConfigView, started: usize) -> u64 {
    if started < config.instance_count {
        config.startup_delay_ms
    } else {
        0
    }
}

/// How long to pause, in milliseconds, when so many workers of a
/// configuration have been started.
pub fn pause_after(config: &WorkerStartupConfig, started: usize) -> (pause_ms: u64)
    ensures
        pause_ms == startup_pause(config@, started),
{
    if started < config.instance_count {
        config.startup_delay_ms
    } else {
        0
    }
}

/// The identifiers are as many as asked for, and none of them is nil.
pub open spec fn fresh_ids(ids: Seq<WorkerId>, count: nat) -> bool {
    ids.len() == count && forall|i: int| 0 <= i < ids.len() ==> #[trigger] ids[i] != 0
}

/// The workers after one worker of the given type and capabilities has been
/// started at `now` under each of the given identifiers, one after the
/// other.
pub open spec fn with_instances(
    workers: Seq<WorkerInstanceView>,
    worker_type: Seq<char>,
    capabilities: Seq<WorkerCapabilityView>,
    now: Timestamp,
    ids: Seq<WorkerId>,
) -> Seq<WorkerInstanceView>
    decreases ids.len(),
{
    if ids.len() == 0 {
        workers
    } else {
        with_instance(
            with_instances(workers, worker_type, capabilities, now, ids.drop_last()),
            instance_of(worker_type, capabilities, ids.last(), now),
        )
    }
}

/// The workers after the workers of the first `n` configurations have been
/// started at `now`, those of each configuration under the identifiers that
/// stand for it.
pub open spec fn with_all_instances(
    workers: Seq<WorkerInstanceView>,
    configs: Seq<WorkerStartupConfigView>,
    now: Timestamp,
    ids: Seq<Seq<WorkerId>>,
    n: int,
) -> Seq<WorkerInstanceView>
    decreases n,
{
    if n <= 0 {
        workers
    } else {
        with_instances(
            with_all_instances(workers, configs, now, ids, n - 1),
            configs[n - 1].worker_type,
            configs[n - 1].capabilities,
            now,
            ids[n - 1],
        )
    }
}

/// What the workers of the first `n` configurations are started as goes by
/// the identifiers of those configurations alone.
proof fn lemma_with_all_instances(
    workers: Seq<WorkerInstanceView>,
    configs: Seq<WorkerStartupConfigView>,
    now: Timestamp,
    ids: Seq<Seq<WorkerId>>,
    more: Seq<WorkerId>,
    n: int,
)
    requires
        0 <= n <= ids.len(),
    ensures
        with_all_instances(workers, configs, now, ids.push(more), n) == with_all_instances(
            workers,
            configs,
            now,
            ids,
            n,
        ),
    decreases n,
{
    if n > 0 {
        lemma_with_all_instances(workers, configs, now, ids, more, n - 1);
        assert(ids.push(more)[n - 1] == ids[n - 1]);
    }
}

/// Those of the first `n` workers that are of the given type, in their order.
pub open spec fn of_type(workers: Seq<WorkerInstanceView>, worker_type: Seq<char>, n: int) -> Seq<
    WorkerInstanceView,
>
    decreases n,
{
    if n <= 0 {
        Seq::empty()
    } else if workers[n - 1].worker_type == worker_type {
        of_type(workers, worker_type, n - 1).push(workers[n - 1])
    } else {
        of_type(workers, worker_type, n - 1)
    }
}

/// Those of the first `n` workers that handle the given format, in their
/// order.
pub open spec fn handling(workers: Seq<WorkerInstanceView>, document_type: DocumentType, n: int) -> Seq<
    WorkerInstanceView,
>
    decreases n,
{
    if n <= 0 {
        Seq::empty()
    } else if workers[n - 1].handles(document_type) {
        handling(workers, document_type, n - 1).push(workers[n - 1])
    } else {
        handling(workers, document_type, n - 1)
    }
}

/// The tally of the types of the first `n` workers.
pub open spec fn tally_of_types(workers: Seq<WorkerInstanceView>, n: int) -> Seq<(Seq<char>, u64)>
    decreases n,
{
    if n <= 0 {
        Seq::empty()
    } else {
        with_one_more(tally_of_types(workers, n - 1), workers[n - 1].worker_type)
    }
}

/// The tally of the states of the first `n` workers, each written as it is
/// shown to people.
pub open spec fn tally_of_states(workers: Seq<WorkerInstanceView>, n: int) -> Seq<(Seq<char>, u64)>
    decreases n,
{
    if n <= 0 {
        Seq::empty()
    } else {
        with_one_more(tally_of_states(workers, n - 1), workers[n - 1].status.text())
    }
}

/// The tally of the capabilities of the first `n` workers, by name.
pub open spec fn tally_of_capabilities(workers: Seq<WorkerInstanceView>, n: int) -> Seq<
    (Seq<char>, u64),
>
    decreases n,
{
    if n <= 0 {
        Seq::empty()
    } else {
        with_all(tally_of_capabilities(workers, n - 1), workers[n - 1].capability_names())
    }
}

/// The figures of a worker manager.
#[derive(Debug, PartialEq, Eq)]
pub struct WorkerManagerStats {
    pub total_workers: usize,
    pub workers_by_type: Tally,
    pub workers_by_status: Tally,
    pub workers_by_capability: Tally,
}

/// The manager of the workers of a deployment.
pub struct WorkerManager {
    workers: Vec<WorkerInstance>,
    startup_configs: Vec<WorkerStartupConfig>,
    is_running: bool,
}

impl View for WorkerManager {
    type V = Seq<WorkerInstanceView>;

    /// The workers that have been started, in the order of their starting.
    closed spec fn view(&self) -> Seq<WorkerInstanceView> {
        instance_views(self.workers@)
    }
}

impl WorkerManager {
    /// The configurations that have been added, in their order.
    pub closed spec fn configurations(&self) -> Seq<WorkerStartupConfigView> {
        config_views(self.startup_configs@)
    }

    /// Whether the workers have been started and not shut down since.
    pub closed spec fn running(&self) -> bool {
        self.is_running
    }

    /// A manager without workers.
    pub fn new() -> (manager: Self)
        ensures
            manager@ == Seq::<WorkerInstanceView>::empty(),
            manager.configurations() == Seq::<WorkerStartupConfigView>::empty(),
            !manager.running(),
    {
        let manager = WorkerManager {
            workers: Vec::new(),
            startup_configs: Vec::new(),
            is_running: false,
        };
        assert(manager@ =~= Seq::<WorkerInstanceView>::empty());
        assert(manager.configurations() =~= Seq::<WorkerStartupConfigView>::empty());
        manager
    }

    /// Number of workers that have been started.
    pub fn worker_count(&self) -> (n: usize)
        ensures
            n == self@.len(),
    {
        self.workers.len()
    }

    /// Number of configurations that have been added.
    pub fn config_count(&self) -> (n: usize)
        ensures
            n == self.configurations().len(),
    {
        self.startup_configs.len()
    }

    /// Whether the workers have been started and not shut down since.
    pub fn is_running(&self) -> (b: bool)
        ensures
            b == self.running(),
    {
        self.is_running
    }

    /// Adds a configuration, to be used when the workers are started.
    pub fn add_worker_config(&mut self, config: WorkerStartupConfig)
        ensures
            final(self)@ == old(self)@,
            final(self).configurations() == old(self).configurations().push(config@),
            final(self).running() == old(self).running(),
    {
        self.startup_configs.push(config);
        assert(self.configurations() =~= old(self).configurations().push(config@));
    }

    fn find(&self, id: WorkerId) -> (at: usize)
        ensures
            at == position_of_instance(self@, id),
            at <= self@.len(),
    {
        let ghost views = instance_views(self.workers@);
        let mut at: usize = 0;
        assert(views.skip(0) =~= views);
        while at < self.workers.len() && self.workers[at].id != id
            invariant
                at <= self.workers@.len(),
                views == instance_views(self.workers@),
                position_of_instance(views, id) == at + position_of_instance(
                    views.skip(at as int),
                    id,
                ),
            decreases self.workers@.len() - at,
        {
            proof {
                let rest = views.skip(at as int);
                assert(rest[0] == views[at as int]);
                assert(rest.drop_first() =~= views.skip(at + 1));
            }
            at = at + 1;
        }
        proof {
            let rest = views.skip(at as int);
            if at < self.workers@.len() {
                assert(rest[0] == views[at as int]);
            }
        }
        at
    }

    /// Starts a worker at `now`: it is running from then on and counts as
    /// checked at `now`. It takes the place of a worker with the same
    /// identifier, if there is one.
    pub fn start_worker(&mut self, worker: WorkerInstance, now: Timestamp)
        ensures
            final(self)@ == with_instance(old(self)@, started(worker@, now)),
            final(self).configurations() == old(self).configurations(),
            final(self).running() == old(self).running(),
    {
        let ghost given = worker@;
        let mut starting = worker;
        starting.status = WorkerStatus::Running;
        starting.last_health_check = Some(now);
        let at = self.find(starting.id);
        if at < self.workers.len() {
            let slot = &mut self.workers[at];
            core::mem::swap(slot, &mut starting);
            assert(self@ =~= old(self)@.update(at as int, started(given, now)));
        } else {
            self.workers.push(starting);
            assert(self@ =~= old(self)@.push(started(given, now)));
        }
    }

    /// The configurations that have been added, in their order.
    pub fn startup_configs(&self) -> (configs: &Vec<WorkerStartupConfig>)
        ensures
            config_views(configs@) == self.configurations(),
    {
        &self.startup_configs
    }

    /// Takes note that the workers are being started: the manager is running.
    pub fn begin_startup(&mut self)
        ensures
            final(self).running(),
            final(self)@ == old(self)@,
            final(self).configurations() == old(self).configurations(),
    {
        self.is_running = true;
    }

    /// Starts one worker of the configuration at the given position at
    /// `now`, under a fresh identifier, which is returned. Nothing is
    /// started, and nothing returned, where there is no such configuration.
    pub fn start_instance(&mut self, config_index: usize, now: Timestamp) -> (started: Option<
        WorkerId,
    >)
        ensures
            final(self).configurations() == old(self).configurations(),
            final(self).running() == old(self).running(),
            config_index >= old(self).configurations().len() ==> started.is_none() && final(self)@
                == old(self)@,
            config_index < old(self).configurations().len() ==> match started {
                Some(id) => id != 0 && final(self)@ == with_instance(
                    old(self)@,
                    instance_of(
                        old(self).configurations()[config_index as int].worker_type,
                        old(self).configurations()[config_index as int].capabilities,
                        id,
                        now,
                    ),
                ),
                None => false,
            },
    {
        if config_index >= self.startup_configs.len() {
            return None;
        }
        let ghost config = self.configurations()[config_index as int];
        assert(config == self.startup_configs@[config_index as int]@);
        let worker = WorkerInstance {
            id: fresh_id(),
            worker_type: self.startup_configs[config_index].worker_type.clone(),
            capabilities: clone_capabilities(&self.startup_configs[config_index].capabilities),
            status: WorkerStatus::Starting,
            started_at: now,
            last_health_check: None,
        };
        let id = worker.id;
        assert(started(worker@, now) == instance_of(config.worker_type, config.capabilities, id, now));
        self.start_worker(worker, now);
        Some(id)
    }

    /// Starts the workers of one configuration at `now`: as many as the
    /// configuration asks for, one after the other, each under a fresh
    /// identifier.
    pub fn start_worker_instances(&mut self, config: &WorkerStartupConfig, now: Timestamp)
        ensures
            final(self).configurations() == old(self).configurations(),
            final(self).running() == old(self).running(),
            exists|ids: Seq<WorkerId>|
                fresh_ids(ids, config.instance_count as nat) && final(self)@
                    == #[trigger] with_instances(
                    old(self)@,
                    config.worker_type@,
                    capability_views(config.capabilities@),
                    now,
                    ids,
                ),
    {
        let ghost mut ids: Seq<WorkerId> = Seq::empty();
        let mut started_count: usize = 0;
        while started_count < config.instance_count
            invariant
                started_count <= config.instance_count,
                self.configurations() == old(self).configurations(),
                self.running() == old(self).running(),
                fresh_ids(ids, started_count as nat),
                self@ == with_instances(
                    old(self)@,
                    config.worker_type@,
                    capability_views(config.capabilities@),
                    now,
                    ids,
                ),
            decreases config.instance_count - started_count,
        {
            let worker = WorkerInstance {
                id: fresh_id(),
                worker_type: config.worker_type.clone(),
                capabilities: clone_capabilities(&config.capabilities),
                status: WorkerStatus::Starting,
                started_at: now,
                last_health_check: None,
            };
            proof {
                assert(started(worker@, now) == instance_of(
                    config.worker_type@,
                    capability_views(config.capabilities@),
                    worker.id,
                    now,
                ));
                assert(ids.push(worker.id).drop_last() =~= ids);
                ids = ids.push(worker.id);
            }
            self.start_worker(worker, now);
            started_count = started_count + 1;
        }
    }

    /// Starts the workers of every configuration at `now`, configuration
    /// after configuration, without a pause. The manager is running
    /// afterwards. To keep the pauses that the configurations ask for, start
    /// the workers one by one with [`WorkerManager::start_instance`] and wait
    /// after each for as long as [`pause_after`] says.
    pub fn start_all_workers(&mut self, now: Timestamp)
        ensures
            final(self).configurations() == old(self).configurations(),
            final(self).running(),
            exists|ids: Seq<Seq<WorkerId>>|
                ids.len() == old(self).configurations().len() && (forall|k: int|
                    0 <= k < ids.len() ==> fresh_ids(
                        #[trigger] ids[k],
                        old(self).configurations()[k].instance_count as nat,
                    )) && final(self)@ == #[trigger] with_all_instances(
                    old(self)@,
                    old(self).configurations(),
                    now,
                    ids,
                    old(self).configurations().len() as int,
                ),
    {
        self.is_running = true;
        let ghost configs = self.configurations();
        let ghost mut ids: Seq<Seq<WorkerId>> = Seq::empty();
        let mut done: usize = 0;
        while done < self.startup_configs.len()
            invariant
                done <= self.startup_configs@.len(),
                configs == old(self).configurations(),
                self.configurations() == configs,
                configs.len() == self.startup_configs@.len(),
                self.running(),
                ids.len() == done,
                forall|k: int|
                    0 <= k < ids.len() ==> fresh_ids(
                        #[trigger] ids[k],
                        configs[k].instance_count as nat,
                    ),
                self@ == with_all_instances(old(self)@, configs, now, ids, done as int),
            decreases self.startup_configs@.len() - done,
        {
            let ghost before = self@;
            let config = WorkerStartupConfig {
                worker_type: self.startup_configs[done].worker_type.clone(),
                capabilities: clone_capabilities(&self.startup_configs[done].capabilities),
                instance_count: self.startup_configs[done].instance_count,
                startup_delay_ms: self.startup_configs[done].startup_delay_ms,
                health_check_interval_ms: self.startup_configs[done].health_check_interval_ms,
            };
            assert(config@ == configs[done as int]);
            self.start_worker_instances(&config, now);
            proof {
                let started_ids = choose|started_ids: Seq<WorkerId>|
                    fresh_ids(started_ids, config.instance_count as nat) && self@
                        == #[trigger] with_instances(
                        before,
                        config.worker_type@,
                        capability_views(config.capabilities@),
                        now,
                        started_ids,
                    );
                lemma_with_all_instances(old(self)@, configs, now, ids, started_ids, done as int);
                ids = ids.push(started_ids);
            }
            done = done + 1;
        }
    }

    /// The worker with the given identifier.
    pub fn get_worker(&self, worker_id: WorkerId) -> (worker: Option<&WorkerInstance>)
        ensures
            match worker {
                Some(w) => position_of_instance(self@, worker_id) < self@.len() && w@
                    == self@[position_of_instance(self@, worker_id)],
                None => position_of_instance(self@, worker_id) >= self@.len(),
            },
    {
        let at = self.find(worker_id);
        if at < self.workers.len() {
            assert(instance_views(self.workers@)[at as int] == self.workers@[at as int]@);
            Some(&self.workers[at])
        } else {
            None
        }
    }

    /// The workers of the given type, in the order of their starting.
    pub fn get_workers_by_type(&self, worker_type: &str) -> (workers: Vec<&WorkerInstance>)
        ensures
            reference_views(workers@) == of_type(self@, worker_type@, self@.len() as int),
    {
        let wanted = String::from_str(worker_type);
        let mut found: Vec<&WorkerInstance> = Vec::new();
        let mut n: usize = 0;
        assert(reference_views(found@) =~= Seq::<WorkerInstanceView>::empty());
        while n < self.workers.len()
            invariant
                n <= self.workers@.len(),
                wanted@ == worker_type@,
                reference_views(found@) == of_type(self@, worker_type@, n as int),
            decreases self.workers@.len() - n,
        {
            assert(self@[n as int] == self.workers@[n as int]@);
            let ghost before = reference_views(found@);
            if self.workers[n].worker_type == wanted {
                found.push(&self.workers[n]);
                assert(reference_views(found@) =~= before.push(self@[n as int]));
            }
            n = n + 1;
        }
        found
    }

    /// Whether one of the capabilities of the worker covers the format.
    fn handles(worker: &WorkerInstance, document_type: DocumentType) -> (yes: bool)
        ensures
            yes == worker@.handles(document_type),
    {
        let mut k: usize = 0;
        while k < worker.capabilities.len()
            invariant
                k <= worker.capabilities@.len(),
                forall|i: int|
                    0 <= i < k ==> !(#[trigger] worker@.capabilities[i]).supported_types.contains(
                        document_type,
                    ),
            decreases worker.capabilities@.len() - k,
        {
            assert(worker@.capabilities[k as int] == worker.capabilities@[k as int]@);
            if crate::documents::contains_type(&worker.capabilities[k].supported_types, document_type) {
                return true;
            }
            k = k + 1;
        }
        false
    }

    /// The workers that handle the given format, in the order of their
    /// starting.
    pub fn get_workers_for_document_type(&self, document_type: &DocumentType) -> (workers: Vec<
        &WorkerInstance,
    >)
        ensures
            reference_views(workers@) == handling(self@, *document_type, self@.len() as int),
    {
        let mut found: Vec<&WorkerInstance> = Vec::new();
        let mut n: usize = 0;
        assert(reference_views(found@) =~= Seq::<WorkerInstanceView>::empty());
        while n < self.workers.len()
            invariant
                n <= self.workers@.len(),
                reference_views(found@) == handling(self@, *document_type, n as int),
            decreases self.workers@.len() - n,
        {
            assert(self@[n as int] == self.workers@[n as int]@);
            let ghost before = reference_views(found@);
            if WorkerManager::handles(&self.workers[n], *document_type) {
                found.push(&self.workers[n]);
                assert(reference_views(found@) =~= before.push(self@[n as int]));
            }
            n = n + 1;
        }
        found
    }

    /// The figures of the manager: how many workers there are, and how many
    /// of each type, in each state and with each capability.
    pub fn get_stats(&self) -> (stats: WorkerManagerStats)
        ensures
            stats.total_workers == self@.len(),
            stats.workers_by_type@ == tally_of_types(self@, self@.len() as int),
            stats.workers_by_status@ == tally_of_states(self@, self@.len() as int),
            stats.workers_by_capability@ == tally_of_capabilities(self@, self@.len() as int),
    {
        let mut by_type = Tally::new();
        let mut by_status = Tally::new();
        let mut by_capability = Tally::new();
        let mut n: usize = 0;
        while n < self.workers.len()
            invariant
                n <= self.workers@.len(),
                by_type@ == tally_of_types(self@, n as int),
                by_status@ == tally_of_states(self@, n as int),
                by_capability@ == tally_of_capabilities(self@, n as int),
            decreases self.workers@.len() - n,
        {
            assert(self@[n as int] == self.workers@[n as int]@);
            let worker = &self.workers[n];
            by_type.add(worker.worker_type.as_str());
            let status = worker.status.to_string();
            by_status.add(status.as_str());
            let ghost names = worker@.capability_names();
            let ghost start = by_capability@;
            let mut k: usize = 0;
            assert(names.subrange(0, 0) =~= Seq::<Seq<char>>::empty());
            while k < worker.capabilities.len()
                invariant
                    k <= worker.capabilities@.len(),
                    names == worker@.capability_names(),
                    names.len() == worker.capabilities@.len(),
                    by_capability@ == with_all(start, names.subrange(0, k as int)),
                decreases worker.capabilities@.len() - k,
            {
                proof {
                    assert(names.subrange(0, k + 1).drop_last() =~= names.subrange(0, k as int));
                    assert(names.subrange(0, k + 1).last() == worker.capabilities@[k as int]@.name);
                }
                by_capability.add(worker.capabilities[k].name.as_str());
                k = k + 1;
            }
            assert(names.subrange(0, k as int) =~= names);
            n = n + 1;
        }
        WorkerManagerStats {
            total_workers: self.workers.len(),
            workers_by_type: by_type,
            workers_by_status: by_status,
            workers_by_capability: by_capability,
        }
    }

    /// Shuts every worker down. The manager is not running afterwards.
    pub fn shutdown_all(&mut self)
        ensures
            final(self)@ == old(self)@.map_values(
                |w: WorkerInstanceView| WorkerInstanceView { status: WorkerStatusView::Shutdown, ..w },
            ),
            final(self).configurations() == old(self).configurations(),
            !final(self).running(),
    {
        let mut n: usize = 0;
        while n < self.workers.len()
            invariant
                n <= self.workers@.len(),
                self@.len() == old(self)@.len(),
                self.startup_configs == old(self).startup_configs,
                forall|i: int|
                    0 <= i < n ==> #[trigger] self@[i] == (WorkerInstanceView {
                        status: WorkerStatusView::Shutdown,
                        ..old(self)@[i]
                    }),
                forall|i: int| n <= i < self@.len() ==> #[trigger] self@[i] == old(self)@[i],
            decreases self.workers@.len() - n,
        {
            let ghost before = self.workers@;
            let worker = &mut self.workers[n];
            worker.status = WorkerStatus::Shutdown;
            proof {
                assert forall|i: int| 0 <= i < self@.len() && i != n implies self.workers@[i]
                    == before[i] by {}
                assert forall|i: int| 0 <= i < n implies #[trigger] self@[i] == (
                WorkerInstanceView { status: WorkerStatusView::Shutdown, ..old(self)@[i] }) by {
                    assert(self.workers@[i] == before[i]);
                    assert(instance_views(before)[i] == before[i]@);
                }
                assert forall|i: int| n < i < self@.len() implies #[trigger] self@[i] == old(
                    self,
                )@[i] by {
                    assert(self.workers@[i] == before[i]);
                    assert(instance_views(before)[i] == before[i]@);
                }
                assert(instance_views(before)[n as int] == before[n as int]@);
            }
            n = n + 1;
        }
        self.is_running = false;
        assert(self@ =~= old(self)@.map_values(
            |w: WorkerInstanceView| WorkerInstanceView { status: WorkerStatusView::Shutdown, ..w },
        ));
    }
}

} // verus!
