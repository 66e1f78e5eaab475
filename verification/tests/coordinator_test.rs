use swarm::channel::SendFailure;
use swarm::coordinator::inbox_message;
use swarm::registry::InboxMessage;
use swarm::{
    Assignment, Cancellation, CoordinatorStats, Delivery, FailureKind, Ingestion, PerformanceProfile,
    RegisterError, ResultKind, SubmitError, SwarmCoordinator, Task, TaskPayload, TaskPriority,
    TaskRequirements, TaskResult, TaskResultData, TaskStatus, TaskType, TextMap, WorkerCapability,
    WorkerConfig, WorkerHealth, WorkerStatus, WorkerType,
};
use tokio::sync::mpsc::error::TryRecvError;
use tokio::sync::mpsc::Receiver;

fn echo() -> TaskType {
    TaskType::Custom { name: "echo".to_string(), version: "1".to_string() }
}

fn profile() -> PerformanceProfile {
    PerformanceProfile {
        avg_processing_time_ms: 100,
        memory_usage_mb: 512,
        cpu_intensity_bits: 0.5f32.to_bits(),
        throughput_per_second_bits: 10.0f32.to_bits(),
    }
}

fn config(id: u128, capability: &str, max: usize) -> WorkerConfig {
    WorkerConfig {
        id,
        name: format!("worker-{}", id),
        worker_type: WorkerType::Custom { name: "generic".to_string(), version: "1".to_string() },
        max_concurrent_tasks: max,
        capabilities: vec![WorkerCapability {
            name: capability.to_string(),
            version: "1".to_string(),
            supported_task_types: vec![echo()],
            max_concurrent_tasks: max,
            performance_profile: profile(),
            metadata: TextMap::new(),
        }],
        performance_profile: profile(),
        health_check_interval_ms: 30_000,
        shutdown_timeout_ms: 5_000,
        metadata: TextMap::new(),
    }
}

fn health(id: u128, status: WorkerStatus, load: usize, at: i64) -> WorkerHealth {
    WorkerHealth {
        worker_id: id,
        status,
        current_load: load,
        max_capacity: 10,
        memory_usage_mb: 100,
        cpu_usage_percent_bits: 50.0f32.to_bits(),
        last_heartbeat: at,
        error_count: 0,
        success_count: 0,
    }
}

/// Registers a worker and reports it as running.
fn join(coordinator: &mut SwarmCoordinator, id: u128, capability: &str, max: usize) -> Receiver<InboxMessage> {
    let inbox = coordinator.register_worker(id, config(id, capability, max), 0).unwrap();
    coordinator.heartbeat(id, health(id, WorkerStatus::Running, 0, 0));
    inbox
}

fn task(id: u128, priority: TaskPriority, created_at: i64) -> Task {
    Task {
        id,
        task_type: echo(),
        priority,
        status: TaskStatus::Pending,
        payload: TaskPayload::Custom { data: b"{\"x\":42}".to_vec(), format: "json".to_string() },
        requirements: TaskRequirements::none(),
        created_at,
        deadline: None,
        retry_count: 0,
        max_retries: 0,
        metadata: TextMap::new(),
    }
}

fn result(task_id: u128, status: TaskStatus) -> TaskResult {
    TaskResult {
        task_id,
        status,
        result: None,
        error: if status == TaskStatus::Failed { Some("boom".to_string()) } else { None },
        processing_time_ms: 40,
        completed_at: 10,
        metadata: TextMap::new(),
    }
}

/// What an echo worker answers to a task.
fn echoed(task: &Task) -> TaskResult {
    let data = match &task.payload {
        TaskPayload::Custom { data, format } => TaskResultData {
            kind: ResultKind::Custom,
            data: data.clone(),
            format: format.clone(),
        },
        _ => panic!("an echo task carries bytes"),
    };
    TaskResult {
        task_id: task.id,
        status: TaskStatus::Completed,
        result: Some(data),
        error: None,
        processing_time_ms: 100,
        completed_at: 20,
        metadata: TextMap::new(),
    }
}

fn received(inbox: &mut Receiver<InboxMessage>) -> Task {
    match inbox.try_recv().unwrap() {
        InboxMessage::Task(task) => task,
        other => panic!("a task was expected, not {:?}", other),
    }
}

/// Schedules and delivers; gives the identifiers of the tasks with their workers.
fn tick(coordinator: &mut SwarmCoordinator, now: i64) -> Vec<(u128, u128)> {
    let mut made = Vec::new();
    for assignment in coordinator.schedule(now) {
        made.push((assignment.task.id, assignment.worker_id));
        assert_eq!(coordinator.deliver(assignment), Delivery::Delivered);
    }
    made
}

/// The sum of the loads on record is the number of tasks in flight.
fn assert_accounted(coordinator: &SwarmCoordinator) {
    let loads: usize = coordinator.snapshot().iter().map(|w| w.current_load).sum();
    assert_eq!(loads, coordinator.in_flight_tasks());
    for worker in coordinator.snapshot() {
        assert!(worker.current_load <= worker.max_concurrent_tasks);
    }
}

fn load_of(coordinator: &SwarmCoordinator, id: u128) -> usize {
    coordinator.snapshot().iter().find(|w| w.id == id).unwrap().current_load
}

#[test]
fn a_single_worker_echoes_a_task() {
    let mut coordinator = SwarmCoordinator::new();
    let mut inbox = join(&mut coordinator, 1, "compute", 1);
    assert_eq!(coordinator.submit_task(task(100, TaskPriority::Normal, 0)), Ok(()));
    assert_eq!(coordinator.task_status(100), Some(TaskStatus::Pending));
    assert_eq!(tick(&mut coordinator, 5), vec![(100, 1)]);
    assert_eq!(coordinator.task_status(100), Some(TaskStatus::Assigned));
    assert_eq!(load_of(&coordinator, 1), 1);
    assert_accounted(&coordinator);

    let got = received(&mut inbox);
    assert_eq!(got.id, 100);
    assert_eq!(got.status, TaskStatus::Assigned);
    assert!(coordinator.note_pickup(100));
    assert_eq!(coordinator.task_status(100), Some(TaskStatus::Processing));

    assert_eq!(coordinator.ingest_result(echoed(&got)), Ingestion::Finished);
    assert_eq!(coordinator.task_status(100), Some(TaskStatus::Completed));
    let outcome = coordinator.outcome_of(100).unwrap();
    assert_eq!(outcome.result.status, TaskStatus::Completed);
    assert_eq!(outcome.result.result.as_ref().unwrap().data, b"{\"x\":42}".to_vec());
    assert_eq!(outcome.failure, None);
    assert_eq!(load_of(&coordinator, 1), 0);
    assert_eq!(coordinator.snapshot()[0].success_count, 1);
    assert_eq!(coordinator.snapshot()[0].status, WorkerStatus::Running);
    assert_accounted(&coordinator);
}

#[test]
fn a_task_that_no_worker_can_run_fails_for_want_of_a_worker() {
    let mut coordinator = SwarmCoordinator::new();
    let _w1 = join(&mut coordinator, 1, "TextProcessing", 1);
    let _w2 = join(&mut coordinator, 2, "VectorIndexing", 1);
    let mut demanding = task(100, TaskPriority::Normal, 0);
    demanding.requirements.required_capabilities = vec!["ModelServing".to_string()];
    demanding.deadline = Some(200);
    coordinator.submit_task(demanding).unwrap();
    assert!(tick(&mut coordinator, 10).is_empty());
    assert!(coordinator.expire_deadlines(200).is_empty());
    assert_eq!(coordinator.task_status(100), Some(TaskStatus::Pending));
    let expired = coordinator.expire_deadlines(201);
    assert_eq!(expired.len(), 1);
    assert_eq!(expired[0].result.task_id, 100);
    assert_eq!(expired[0].result.status, TaskStatus::Failed);
    assert_eq!(expired[0].result.error, Some("no_worker".to_string()));
    assert_eq!(expired[0].result.completed_at, 201);
    assert_eq!(expired[0].failure, Some(FailureKind::NoWorker));
    assert_eq!(coordinator.task_status(100), Some(TaskStatus::Failed));
    assert_eq!(coordinator.pending_tasks(), 0);
    assert_accounted(&coordinator);
}

#[test]
fn a_task_that_finds_no_free_worker_in_time_fails_for_want_of_time() {
    let mut coordinator = SwarmCoordinator::new();
    let _inbox = join(&mut coordinator, 1, "compute", 1);
    coordinator.submit_task(task(100, TaskPriority::High, 0)).unwrap();
    let mut starved = task(101, TaskPriority::Low, 1);
    starved.deadline = Some(50);
    starved.max_retries = 5;
    coordinator.submit_task(starved).unwrap();
    assert_eq!(tick(&mut coordinator, 2), vec![(100, 1)]);
    assert!(tick(&mut coordinator, 3).is_empty());
    let expired = coordinator.expire_deadlines(51);
    assert_eq!(expired.len(), 1);
    assert_eq!(expired[0].result.error, Some("deadline_exceeded".to_string()));
    assert_eq!(expired[0].failure, Some(FailureKind::DeadlineExceeded));
    assert_eq!(expired[0].retry_count, 0);
    assert_eq!(expired[0].max_retries, 5);
    assert_eq!(coordinator.stats(1000).total_tasks_processed, 1);
    assert_accounted(&coordinator);
}

#[test]
fn tasks_are_dispatched_in_the_order_of_their_priority() {
    let mut coordinator = SwarmCoordinator::new();
    let mut inbox = join(&mut coordinator, 1, "compute", 1);
    coordinator.submit_task(task(1, TaskPriority::Low, 1)).unwrap();
    coordinator.submit_task(task(2, TaskPriority::Critical, 2)).unwrap();
    coordinator.submit_task(task(3, TaskPriority::Normal, 3)).unwrap();
    coordinator.submit_task(task(4, TaskPriority::High, 4)).unwrap();
    let mut order = Vec::new();
    for round in 0..4 {
        let made = tick(&mut coordinator, 10 + round);
        assert_eq!(made.len(), 1);
        order.push(made[0].0);
        // The worker is full: nothing more goes out.
        assert!(tick(&mut coordinator, 10 + round).is_empty());
        let got = received(&mut inbox);
        assert_eq!(coordinator.ingest_result(echoed(&got)), Ingestion::Finished);
        assert_accounted(&coordinator);
    }
    assert_eq!(order, vec![2, 4, 3, 1]);
    assert!(tick(&mut coordinator, 20).is_empty());
}

#[test]
fn a_failed_task_is_tried_again_and_succeeds() {
    let mut coordinator = SwarmCoordinator::new();
    let mut inbox = join(&mut coordinator, 1, "compute", 1);
    let mut fragile = task(100, TaskPriority::Normal, 0);
    fragile.max_retries = 1;
    coordinator.submit_task(fragile).unwrap();

    assert_eq!(tick(&mut coordinator, 1), vec![(100, 1)]);
    let first = received(&mut inbox);
    assert_eq!(first.retry_count, 0);
    assert_eq!(coordinator.ingest_result(result(100, TaskStatus::Failed)), Ingestion::Retried);
    assert_eq!(coordinator.task_status(100), Some(TaskStatus::Pending));
    assert_eq!(load_of(&coordinator, 1), 0);
    assert_eq!(coordinator.snapshot()[0].error_count, 1);
    assert_accounted(&coordinator);

    assert_eq!(tick(&mut coordinator, 2), vec![(100, 1)]);
    let second = received(&mut inbox);
    assert_eq!(second.retry_count, 1);
    assert_eq!(coordinator.ingest_result(echoed(&second)), Ingestion::Finished);
    let outcome = coordinator.outcome_of(100).unwrap();
    assert_eq!(outcome.result.status, TaskStatus::Completed);
    assert_eq!(outcome.retry_count, 1);
    assert_eq!(outcome.max_retries, 1);
    assert!(inbox.try_recv().is_err());
    assert_accounted(&coordinator);
}

#[test]
fn a_task_that_keeps_failing_fails_for_good_when_its_retries_are_used_up() {
    let mut coordinator = SwarmCoordinator::new();
    let mut inbox = join(&mut coordinator, 1, "compute", 1);
    let mut doomed = task(100, TaskPriority::Normal, 0);
    doomed.max_retries = 2;
    coordinator.submit_task(doomed).unwrap();
    for attempt in 0..3 {
        assert_eq!(tick(&mut coordinator, attempt), vec![(100, 1)]);
        assert_eq!(received(&mut inbox).retry_count, attempt as u32);
        let expected = if attempt < 2 { Ingestion::Retried } else { Ingestion::Finished };
        assert_eq!(coordinator.ingest_result(result(100, TaskStatus::Failed)), expected);
    }
    let outcome = coordinator.outcome_of(100).unwrap();
    assert_eq!(outcome.result.status, TaskStatus::Failed);
    assert_eq!(outcome.result.error, Some("boom".to_string()));
    assert_eq!(outcome.retry_count, 2);
    assert_eq!(outcome.max_retries, 2);
    assert_eq!(outcome.failure, Some(FailureKind::Execution));
    assert_eq!(coordinator.snapshot()[0].error_count, 3);
    assert_eq!(
        coordinator.stats(1000),
        CoordinatorStats {
            total_workers: 1,
            active_workers: 1,
            total_tasks_processed: 1,
            tasks_per_second_milli: 1000,
            average_processing_time_ms: 40,
            error_rate_permille: 1000,
        }
    );
}

#[test]
fn a_task_survives_the_loss_of_its_worker() {
    let mut coordinator = SwarmCoordinator::new();
    let mut first = join(&mut coordinator, 1, "compute", 1);
    coordinator.submit_task(task(100, TaskPriority::Normal, 0)).unwrap();
    assert_eq!(tick(&mut coordinator, 1), vec![(100, 1)]);
    assert_eq!(coordinator.task_status(100), Some(TaskStatus::Assigned));

    assert!(coordinator.unregister_worker(1));
    assert!(!coordinator.unregister_worker(1));
    assert_eq!(coordinator.worker_count(), 0);
    assert_eq!(coordinator.task_status(100), Some(TaskStatus::Pending));
    assert_eq!(coordinator.in_flight_tasks(), 0);
    // The inbox of the worker is closed once it has been emptied.
    assert_eq!(received(&mut first).id, 100);
    assert_eq!(first.try_recv(), Err(TryRecvError::Disconnected));
    // A result of the lost worker comes too late.
    assert_eq!(coordinator.ingest_result(result(100, TaskStatus::Completed)), Ingestion::Ignored);

    let mut second = join(&mut coordinator, 2, "compute", 1);
    assert_eq!(tick(&mut coordinator, 2), vec![(100, 2)]);
    let got = received(&mut second);
    assert_eq!(got.retry_count, 0);
    assert_eq!(coordinator.ingest_result(echoed(&got)), Ingestion::Finished);
    assert_eq!(coordinator.task_status(100), Some(TaskStatus::Completed));
    assert_eq!(load_of(&coordinator, 2), 0);
    assert_accounted(&coordinator);
}

#[test]
fn the_less_loaded_worker_is_chosen_and_then_the_lower_identifier() {
    let mut coordinator = SwarmCoordinator::new();
    let _a = join(&mut coordinator, 20, "compute", 5);
    let _b = join(&mut coordinator, 10, "compute", 5);
    for id in 1..=4 {
        coordinator.submit_task(task(id, TaskPriority::Normal, id as i64)).unwrap();
    }
    // Equal loads go to the lower identifier, then the loads alternate.
    assert_eq!(tick(&mut coordinator, 1), vec![(1, 10), (2, 20), (3, 10), (4, 20)]);
    assert_accounted(&coordinator);
    assert_eq!(load_of(&coordinator, 10), 2);
    assert_eq!(load_of(&coordinator, 20), 2);
    assert_eq!(coordinator.snapshot()[0].status, WorkerStatus::Busy);
    // With loads of one and two the next task goes to the worker with one.
    assert_eq!(coordinator.ingest_result(result(2, TaskStatus::Completed)), Ingestion::Finished);
    coordinator.submit_task(task(5, TaskPriority::Normal, 5)).unwrap();
    assert_eq!(tick(&mut coordinator, 2), vec![(5, 20)]);
}

#[test]
fn a_worker_that_has_not_started_gets_nothing() {
    let mut coordinator = SwarmCoordinator::new();
    let mut inbox = coordinator.register_worker(1, config(1, "compute", 1), 0).unwrap();
    assert_eq!(coordinator.snapshot()[0].status, WorkerStatus::Starting);
    coordinator.submit_task(task(100, TaskPriority::Normal, 0)).unwrap();
    assert!(tick(&mut coordinator, 1).is_empty());
    assert!(inbox.try_recv().is_err());
    coordinator.heartbeat(1, health(1, WorkerStatus::Idle, 0, 5));
    assert_eq!(tick(&mut coordinator, 6), vec![(100, 1)]);
}

#[test]
fn a_worker_that_takes_no_task_at_a_time_gets_nothing() {
    let mut coordinator = SwarmCoordinator::new();
    let mut inbox = join(&mut coordinator, 1, "compute", 0);
    coordinator.submit_task(task(100, TaskPriority::Critical, 0)).unwrap();
    assert!(tick(&mut coordinator, 1).is_empty());
    assert!(coordinator.schedule(2).is_empty());
    assert_eq!(inbox.try_recv(), Err(TryRecvError::Empty));
    assert_eq!(coordinator.pending_tasks(), 1);
}

#[test]
fn a_round_of_scheduling_is_limited_by_the_free_capacity() {
    let mut coordinator = SwarmCoordinator::new();
    let _a = join(&mut coordinator, 1, "compute", 2);
    let _b = join(&mut coordinator, 2, "other", 1);
    // The first three tasks of the queue are tried: two cannot be placed.
    let mut picky = task(1, TaskPriority::Critical, 0);
    picky.requirements.required_capabilities = vec!["missing".to_string()];
    coordinator.submit_task(picky).unwrap();
    let mut needs_other = task(2, TaskPriority::High, 0);
    needs_other.requirements.required_capabilities = vec!["other".to_string()];
    coordinator.submit_task(needs_other).unwrap();
    coordinator.submit_task(task(3, TaskPriority::Normal, 0)).unwrap();
    coordinator.submit_task(task(4, TaskPriority::Low, 0)).unwrap();
    assert_eq!(tick(&mut coordinator, 1), vec![(2, 2), (3, 1)]);
    assert_eq!(coordinator.pending_tasks(), 2);
    // One place is left, so one task is tried: the one at the head, in vain.
    assert!(tick(&mut coordinator, 2).is_empty());
    assert_eq!(coordinator.cancel_task(1, 3), Cancellation::Cancelled);
    assert_eq!(tick(&mut coordinator, 4), vec![(4, 1)]);
    assert!(tick(&mut coordinator, 5).is_empty());
    assert_accounted(&coordinator);
}

#[test]
fn tasks_are_refused_for_the_stated_reasons() {
    let mut coordinator = SwarmCoordinator::new();
    assert_eq!(coordinator.submit_task(task(0, TaskPriority::Normal, 0)), Err(SubmitError::NilId));
    let mut mismatched = task(1, TaskPriority::Normal, 0);
    mismatched.payload = TaskPayload::Text {
        content: "x".to_string(),
        analysis_options: swarm::TextAnalysisOptions::default(),
    };
    assert_eq!(coordinator.submit_task(mismatched), Err(SubmitError::PayloadMismatch));
    assert_eq!(coordinator.submit_task(task(1, TaskPriority::Normal, 0)), Ok(()));
    assert_eq!(
        coordinator.submit_task(task(1, TaskPriority::High, 5)),
        Err(SubmitError::DuplicateId)
    );
    // A task is taken in as pending, whatever it says of itself.
    let mut used = task(2, TaskPriority::Normal, 0);
    used.status = TaskStatus::Completed;
    used.retry_count = 7;
    assert_eq!(coordinator.submit_task(used), Ok(()));
    assert_eq!(coordinator.task_status(2), Some(TaskStatus::Pending));
    assert_eq!(coordinator.pending_tasks(), 2);
    let mut inbox = join(&mut coordinator, 1, "compute", 5);
    tick(&mut coordinator, 1);
    assert_eq!(received(&mut inbox).id, 1);
    assert_eq!(received(&mut inbox).retry_count, 0);
    // Also the identifier of a finished task is taken.
    coordinator.ingest_result(result(1, TaskStatus::Completed));
    assert_eq!(
        coordinator.submit_task(task(1, TaskPriority::Normal, 0)),
        Err(SubmitError::DuplicateId)
    );
    coordinator.begin_shutdown();
    assert!(!coordinator.is_accepting());
    assert_eq!(
        coordinator.submit_task(task(0, TaskPriority::Normal, 0)),
        Err(SubmitError::ShuttingDown)
    );
}

#[test]
fn a_worker_registers_once() {
    let mut coordinator = SwarmCoordinator::new();
    assert!(coordinator.register_worker(1, config(1, "a", 1), 5).is_ok());
    assert_eq!(
        coordinator.register_worker(1, config(1, "b", 2), 6).err(),
        Some(RegisterError::AlreadyRegistered(1))
    );
    assert_eq!(coordinator.worker_count(), 1);
    let record = &coordinator.snapshot()[0];
    assert_eq!(record.id, 1);
    assert_eq!(record.name, "worker-1");
    assert_eq!(record.status, WorkerStatus::Starting);
    assert_eq!(record.current_load, 0);
    assert_eq!(record.max_concurrent_tasks, 1);
    assert_eq!(record.last_heartbeat, 5);
    assert_eq!(record.capabilities[0].name, "a");
    assert_eq!((record.success_count, record.error_count), (0, 0));
}

#[test]
fn a_heartbeat_updates_the_record_within_its_limits() {
    let mut coordinator = SwarmCoordinator::new();
    let _inbox = coordinator.register_worker(1, config(1, "a", 3), 0).unwrap();
    // Unknown workers are ignored.
    coordinator.heartbeat(2, health(2, WorkerStatus::Running, 1, 9));
    assert_eq!(coordinator.worker_count(), 1);
    // A starting worker cannot be busy yet; the rest is taken.
    let mut report = health(1, WorkerStatus::Busy, 2, 7);
    report.error_count = 4;
    report.success_count = 5;
    coordinator.heartbeat(1, report);
    let record = &coordinator.snapshot()[0];
    assert_eq!(record.status, WorkerStatus::Starting);
    assert_eq!(record.current_load, 2);
    assert_eq!(record.last_heartbeat, 7);
    assert_eq!((record.error_count, record.success_count), (4, 5));
    // The load never exceeds the limit of the worker.
    coordinator.heartbeat(1, health(1, WorkerStatus::Running, 99, 8));
    assert_eq!(coordinator.snapshot()[0].current_load, 3);
    assert_eq!(coordinator.snapshot()[0].status, WorkerStatus::Running);
    coordinator.heartbeat(1, health(1, WorkerStatus::Error("disk".to_string()), 0, 9));
    assert_eq!(coordinator.snapshot()[0].status, WorkerStatus::Error("disk".to_string()));
    coordinator.heartbeat(1, health(1, WorkerStatus::Busy, 0, 10));
    assert_eq!(coordinator.snapshot()[0].status, WorkerStatus::Error("disk".to_string()));
    coordinator.heartbeat(1, health(1, WorkerStatus::Shutdown, 0, 11));
    coordinator.heartbeat(1, health(1, WorkerStatus::Running, 0, 12));
    assert_eq!(coordinator.snapshot()[0].status, WorkerStatus::Shutdown);
    assert_eq!(coordinator.snapshot()[0].last_heartbeat, 12);
}

#[test]
fn stale_workers_are_evicted_and_their_tasks_wait_again() {
    let mut coordinator = SwarmCoordinator::new();
    let _a = join(&mut coordinator, 1, "compute", 1);
    let _b = join(&mut coordinator, 2, "compute", 1);
    let _c = join(&mut coordinator, 3, "compute", 1);
    for id in 100..103 {
        coordinator.submit_task(task(id, TaskPriority::Normal, id as i64)).unwrap();
    }
    assert_eq!(tick(&mut coordinator, 1), vec![(100, 1), (101, 2), (102, 3)]);
    coordinator.heartbeat(2, health(2, WorkerStatus::Busy, 1, 50_000));
    // Exactly at the timeout a worker is not stale yet.
    assert!(coordinator.evict_stale(90_000, 90_000).is_empty());
    assert_eq!(coordinator.evict_stale(90_001, 90_000), vec![1, 3]);
    assert_eq!(coordinator.worker_count(), 1);
    assert_eq!(coordinator.snapshot()[0].id, 2);
    assert_eq!(coordinator.pending_tasks(), 2);
    assert_eq!(coordinator.in_flight_tasks(), 1);
    assert_eq!(coordinator.task_status(100), Some(TaskStatus::Pending));
    assert_eq!(coordinator.task_status(101), Some(TaskStatus::Assigned));
    assert_eq!(coordinator.task_status(102), Some(TaskStatus::Pending));
    assert_accounted(&coordinator);
    assert!(coordinator.evict_stale(90_001, 90_000).is_empty());
}

#[test]
fn an_inbox_that_does_not_take_a_task_gives_it_back() {
    let mut coordinator = SwarmCoordinator::new();
    let inbox = join(&mut coordinator, 1, "compute", 1);
    drop(inbox);
    coordinator.submit_task(task(100, TaskPriority::Normal, 0)).unwrap();
    let mut assignments = coordinator.schedule(1);
    assert_eq!(assignments.len(), 1);
    assert_eq!(load_of(&coordinator, 1), 1);
    assert_eq!(coordinator.deliver(assignments.pop().unwrap()), Delivery::Returned);
    assert_eq!(coordinator.task_status(100), Some(TaskStatus::Pending));
    assert_eq!(load_of(&coordinator, 1), 0);
    assert_eq!(coordinator.snapshot()[0].status, WorkerStatus::Running);
    assert_accounted(&coordinator);

    // An assignment that has been undone in the meantime is dropped.
    let mut again = coordinator.schedule(2);
    assert!(coordinator.rollback_assignment(100));
    assert!(!coordinator.rollback_assignment(100));
    assert_eq!(coordinator.deliver(again.pop().unwrap()), Delivery::Dropped);
    assert_eq!(coordinator.pending_tasks(), 1);
    assert_accounted(&coordinator);
}

#[test]
fn results_that_are_late_repeated_or_not_final_change_nothing() {
    let mut coordinator = SwarmCoordinator::new();
    let _inbox = join(&mut coordinator, 1, "compute", 2);
    coordinator.submit_task(task(100, TaskPriority::Normal, 0)).unwrap();
    assert_eq!(coordinator.ingest_result(result(100, TaskStatus::Completed)), Ingestion::Ignored);
    assert_eq!(coordinator.ingest_result(result(999, TaskStatus::Completed)), Ingestion::Ignored);
    tick(&mut coordinator, 1);
    for status in [
        TaskStatus::Pending,
        TaskStatus::Assigned,
        TaskStatus::Processing,
        TaskStatus::Retrying,
    ] {
        assert_eq!(coordinator.ingest_result(result(100, status)), Ingestion::Ignored);
    }
    assert_eq!(coordinator.task_status(100), Some(TaskStatus::Assigned));
    assert_eq!(coordinator.ingest_result(result(100, TaskStatus::Completed)), Ingestion::Finished);
    assert_eq!(coordinator.ingest_result(result(100, TaskStatus::Failed)), Ingestion::Ignored);
    assert_eq!(coordinator.ingest_result(result(100, TaskStatus::Completed)), Ingestion::Ignored);
    assert_eq!(coordinator.task_status(100), Some(TaskStatus::Completed));
    assert_eq!(coordinator.snapshot()[0].success_count, 1);
    assert_eq!(coordinator.stats(0).total_tasks_processed, 1);
    assert_accounted(&coordinator);
}

#[test]
fn results_arrive_through_the_queue_of_the_coordinator() {
    let mut coordinator = SwarmCoordinator::new();
    let _inbox = join(&mut coordinator, 1, "compute", 2);
    coordinator.submit_task(task(100, TaskPriority::Normal, 0)).unwrap();
    coordinator.submit_task(task(101, TaskPriority::Normal, 1)).unwrap();
    tick(&mut coordinator, 1);
    let sender = coordinator.get_result_sender();
    assert_eq!(coordinator.ingest_available(), 0);
    sender.send(result(100, TaskStatus::Completed)).unwrap();
    sender.send(result(101, TaskStatus::Cancelled)).unwrap();
    sender.send(result(102, TaskStatus::Completed)).unwrap();
    assert_eq!(coordinator.ingest_available(), 3);
    assert_eq!(coordinator.task_status(100), Some(TaskStatus::Completed));
    assert_eq!(coordinator.task_status(101), Some(TaskStatus::Cancelled));
    assert_eq!(coordinator.task_status(102), None);
    assert_eq!(coordinator.snapshot()[0].success_count, 1);
    assert_eq!(coordinator.snapshot()[0].error_count, 0);
    assert_accounted(&coordinator);
}

#[test]
fn tasks_can_be_cancelled_while_they_wait_and_while_they_run() {
    let mut coordinator = SwarmCoordinator::new();
    let mut inbox = join(&mut coordinator, 1, "compute", 2);
    coordinator.submit_task(task(100, TaskPriority::High, 0)).unwrap();
    coordinator.submit_task(task(101, TaskPriority::High, 1)).unwrap();
    tick(&mut coordinator, 1);
    coordinator.submit_task(task(102, TaskPriority::Low, 2)).unwrap();
    assert_eq!(coordinator.cancel_task(999, 5), Cancellation::Unknown);
    assert_eq!(coordinator.cancel_task(102, 5), Cancellation::Cancelled);
    assert_eq!(coordinator.task_status(102), Some(TaskStatus::Cancelled));
    assert_eq!(coordinator.cancel_task(102, 6), Cancellation::Unknown);
    received(&mut inbox);
    received(&mut inbox);
    assert_eq!(coordinator.cancel_task(100, 10), Cancellation::Requested);
    assert_eq!(inbox.try_recv(), Ok(InboxMessage::Cancel(100)));
    assert_eq!(coordinator.cancel_task(100, 11), Cancellation::AlreadyRequested);
    assert_eq!(coordinator.cancel_task(101, 4_000), Cancellation::Requested);
    assert_eq!(coordinator.task_status(100), Some(TaskStatus::Assigned));
    assert_accounted(&coordinator);
    // The worker answers for one of them.
    assert_eq!(coordinator.ingest_result(result(101, TaskStatus::Cancelled)), Ingestion::Finished);
    // The other is cancelled when the grace has passed.
    assert!(coordinator.expire_cancellations(5_010, 5_000).is_empty());
    let forced = coordinator.expire_cancellations(5_011, 5_000);
    assert_eq!(forced.len(), 1);
    assert_eq!(forced[0].result.task_id, 100);
    assert_eq!(forced[0].result.status, TaskStatus::Cancelled);
    assert_eq!(coordinator.task_status(100), Some(TaskStatus::Cancelled));
    assert_eq!(load_of(&coordinator, 1), 0);
    assert_accounted(&coordinator);
}

#[test]
fn a_shutdown_cancels_what_has_not_ended() {
    let mut coordinator = SwarmCoordinator::new();
    let mut inbox = join(&mut coordinator, 1, "compute", 2);
    for id in 100..104 {
        coordinator.submit_task(task(id, TaskPriority::Normal, id as i64)).unwrap();
    }
    tick(&mut coordinator, 1);
    received(&mut inbox);
    received(&mut inbox);
    coordinator.ingest_result(result(100, TaskStatus::Completed));
    coordinator.begin_shutdown();
    assert_eq!(inbox.try_recv(), Ok(InboxMessage::Shutdown));
    let cancelled = coordinator.finish_shutdown(50);
    let ids: Vec<u128> = cancelled.iter().map(|o| o.result.task_id).collect();
    assert_eq!(ids, vec![101, 102, 103]);
    assert!(cancelled.iter().all(|o| o.result.status == TaskStatus::Cancelled));
    assert_eq!(coordinator.pending_tasks(), 0);
    assert_eq!(coordinator.in_flight_tasks(), 0);
    assert_eq!(coordinator.task_status(100), Some(TaskStatus::Completed));
    assert_eq!(coordinator.task_status(103), Some(TaskStatus::Cancelled));
    assert_eq!(load_of(&coordinator, 1), 0);
    assert_accounted(&coordinator);
}

#[test]
fn an_outcome_is_handed_over_once() {
    let mut coordinator = SwarmCoordinator::new();
    let _inbox = join(&mut coordinator, 1, "compute", 1);
    coordinator.submit_task(task(100, TaskPriority::Normal, 0)).unwrap();
    tick(&mut coordinator, 1);
    assert!(coordinator.take_outcome(100).is_none());
    assert!(coordinator.outcome_of(100).is_none());
    coordinator.ingest_result(result(100, TaskStatus::Completed));
    let outcome = coordinator.take_outcome(100).unwrap();
    assert_eq!(outcome.result.task_id, 100);
    assert_eq!(outcome.result.processing_time_ms, 40);
    assert!(coordinator.take_outcome(100).is_none());
    assert_eq!(coordinator.task_status(100), None);
    assert_eq!(coordinator.stats(0).total_tasks_processed, 1);
}

#[test]
fn the_figures_are_rounded_down() {
    let mut coordinator = SwarmCoordinator::new();
    assert_eq!(
        coordinator.stats(1000),
        CoordinatorStats {
            total_workers: 0,
            active_workers: 0,
            total_tasks_processed: 0,
            tasks_per_second_milli: 0,
            average_processing_time_ms: 0,
            error_rate_permille: 0,
        }
    );
    let _a = join(&mut coordinator, 1, "compute", 3);
    let _b = coordinator.register_worker(2, config(2, "compute", 3), 0).unwrap();
    for id in 100..103 {
        let mut t = task(id, TaskPriority::Normal, id as i64);
        t.max_retries = 0;
        coordinator.submit_task(t).unwrap();
    }
    tick(&mut coordinator, 1);
    let mut slow = result(100, TaskStatus::Completed);
    slow.processing_time_ms = 101;
    coordinator.ingest_result(slow);
    coordinator.ingest_result(result(101, TaskStatus::Failed));
    coordinator.ingest_result(result(102, TaskStatus::Cancelled));
    assert_eq!(
        coordinator.stats(7000),
        CoordinatorStats {
            total_workers: 2,
            active_workers: 1,
            total_tasks_processed: 3,
            // 3 tasks in 7 seconds: 0.428 a second.
            tasks_per_second_milli: 428,
            // 181 ms over 3 tasks.
            average_processing_time_ms: 60,
            // 1 of 3.
            error_rate_permille: 333,
        }
    );
    assert_eq!(coordinator.stats(0).tasks_per_second_milli, 0);
}

#[test]
fn the_registry_lets_go_of_the_workers_it_has_not_heard_of() {
    let mut registry = swarm::WorkerRegistry::new();
    let mut first = registry.register(1, config(1, "compute", 1), 0).unwrap();
    let mut second = registry.register(2, config(2, "compute", 1), 50).unwrap();
    let _third = registry.register(3, config(3, "compute", 1), 0).unwrap();
    let _fourth = registry.register(4, config(4, "compute", 1), 100).unwrap();
    assert_eq!(
        registry.register(2, config(2, "compute", 1), 60).unwrap_err(),
        RegisterError::AlreadyRegistered(2)
    );

    // Exactly at the limit a worker is not stale.
    assert_eq!(registry.evict_stale(90, 90), Vec::<u128>::new());
    assert_eq!(registry.len(), 4);

    assert_eq!(registry.evict_stale(91, 90), vec![1, 3]);
    let left: Vec<u128> = registry.records().iter().map(|record| record.id).collect();
    assert_eq!(left, vec![2, 4]);
    assert!(registry.get(1).is_none());
    assert_eq!(registry.get(4).unwrap().status, WorkerStatus::Starting);
    // The inbox of a worker that went is closed; that of one that stayed is open.
    assert_eq!(first.try_recv().unwrap_err(), TryRecvError::Disconnected);
    assert_eq!(second.try_recv().unwrap_err(), TryRecvError::Empty);

    assert_eq!(registry.evict_stale(1_000, 90), vec![2, 4]);
    assert_eq!(registry.len(), 0);
    assert!(!registry.unregister(2));
}

#[test]
fn every_handle_on_the_queue_of_results_leads_to_the_coordinator() {
    let mut coordinator = SwarmCoordinator::new();
    let mut inbox = join(&mut coordinator, 1, "compute", 2);
    let first = coordinator.get_result_sender();
    coordinator.submit_task(task(10, TaskPriority::Normal, 1)).unwrap();
    coordinator.submit_task(task(11, TaskPriority::Normal, 2)).unwrap();
    let second = coordinator.get_result_sender();
    assert!(first.same_channel(&second));
    for (task_id, worker_id) in tick(&mut coordinator, 5) {
        assert_eq!(worker_id, 1);
        assert!(task_id == 10 || task_id == 11);
    }
    let one = received(&mut inbox);
    let other = received(&mut inbox);
    first.send(echoed(&one)).unwrap();
    second.send(echoed(&other)).unwrap();
    assert_eq!(coordinator.ingest_available(), 2);
    assert_eq!(coordinator.task_status(10), Some(TaskStatus::Completed));
    assert_eq!(coordinator.task_status(11), Some(TaskStatus::Completed));
    assert_eq!(coordinator.ingest_available(), 0);
}

#[test]
fn a_delivery_is_settled_by_what_the_inbox_answered() {
    let mut coordinator = SwarmCoordinator::new();
    let _inbox = join(&mut coordinator, 1, "compute", 2);
    coordinator.submit_task(task(10, TaskPriority::Normal, 1)).unwrap();
    coordinator.submit_task(task(11, TaskPriority::Normal, 2)).unwrap();
    let assignments = coordinator.schedule(5);
    assert_eq!(assignments.len(), 2);
    assert_eq!(load_of(&coordinator, 1), 2);

    // What goes into the inbox for an assignment is its task.
    let handed = inbox_message(Assignment { task: task(10, TaskPriority::Normal, 1), worker_id: 1 });
    assert_eq!(handed, InboxMessage::Task(task(10, TaskPriority::Normal, 1)));

    // The inbox took the first task: it is delivered and stays where it is.
    assert_eq!(coordinator.settle_delivery(10, Ok(())), Delivery::Delivered);
    assert_eq!(coordinator.task_status(10), Some(TaskStatus::Assigned));
    assert_eq!(load_of(&coordinator, 1), 2);

    // The inbox gave the second task back: it waits again and the worker is free of it.
    let back = InboxMessage::Task(task(11, TaskPriority::Normal, 2));
    assert_eq!(
        coordinator.settle_delivery(11, Err((SendFailure::Full, back))),
        Delivery::Returned
    );
    assert_eq!(coordinator.task_status(11), Some(TaskStatus::Pending));
    assert_eq!(coordinator.pending_tasks(), 1);
    assert_eq!(coordinator.in_flight_tasks(), 1);
    assert_eq!(load_of(&coordinator, 1), 1);
    assert_accounted(&coordinator);

    // A closed inbox gives back as a full one does, and a task that is not in flight stays put.
    let again = InboxMessage::Task(task(11, TaskPriority::Normal, 2));
    assert_eq!(
        coordinator.settle_delivery(11, Err((SendFailure::Closed, again))),
        Delivery::Returned
    );
    assert_eq!(coordinator.pending_tasks(), 1);
    assert_eq!(load_of(&coordinator, 1), 1);
}

#[test]
fn a_result_that_comes_again_changes_nothing() {
    let mut coordinator = SwarmCoordinator::new();
    let mut inbox = join(&mut coordinator, 1, "compute", 1);
    coordinator.submit_task(task(10, TaskPriority::Normal, 1)).unwrap();
    tick(&mut coordinator, 5);
    let done = echoed(&received(&mut inbox));
    assert_eq!(coordinator.ingest_result(done.clone()), Ingestion::Finished);
    let worker = coordinator.snapshot().remove(0);
    assert_eq!(worker.current_load, 0);
    assert_eq!(worker.success_count, 1);
    assert_eq!(coordinator.in_flight_tasks(), 0);
    let recorded = coordinator.outcome_of(10).unwrap().clone();

    let mut late = done.clone();
    late.status = TaskStatus::Failed;
    late.error = Some("too late".to_string());
    assert_eq!(coordinator.ingest_result(done), Ingestion::Ignored);
    assert_eq!(coordinator.ingest_result(late), Ingestion::Ignored);
    assert_eq!(coordinator.task_status(10), Some(TaskStatus::Completed));
    assert_eq!(coordinator.outcome_of(10), Some(&recorded));
    assert_eq!(coordinator.snapshot().remove(0), worker);
}

#[test]
fn a_round_does_everything_that_is_due() {
    let mut coordinator = SwarmCoordinator::new();
    let mut inbox = join(&mut coordinator, 1, "compute", 1);
    let _lost = join(&mut coordinator, 2, "compute", 1);
    coordinator.heartbeat(1, health(1, WorkerStatus::Running, 0, 95_000));

    let mut overdue = task(20, TaskPriority::Critical, 1);
    overdue.deadline = Some(50);
    overdue.requirements.required_capabilities = vec!["nobody has this".to_string()];
    coordinator.submit_task(overdue).unwrap();
    coordinator.submit_task(task(21, TaskPriority::Normal, 2)).unwrap();
    coordinator.submit_task(task(22, TaskPriority::Low, 3)).unwrap();

    // At 100 s the second worker has not been heard of for more than 90 s,
    // the first task is overdue, and the first worker has room for one task.
    assert_eq!(coordinator.tick(100_000, 90_000, 5_000), vec![Delivery::Delivered]);
    assert_eq!(coordinator.worker_count(), 1);
    assert_eq!(coordinator.task_status(20), Some(TaskStatus::Failed));
    assert_eq!(coordinator.outcome_of(20).unwrap().failure, Some(FailureKind::NoWorker));
    assert_eq!(coordinator.task_status(21), Some(TaskStatus::Assigned));
    assert_eq!(coordinator.task_status(22), Some(TaskStatus::Pending));
    assert_accounted(&coordinator);

    // The result comes in through the queue and is taken by the next round,
    // which gives the worker the task that waited.
    let first = received(&mut inbox);
    assert_eq!(first.id, 21);
    coordinator.get_result_sender().send(echoed(&first)).unwrap();
    coordinator.heartbeat(1, health(1, WorkerStatus::Busy, 1, 100_500));
    assert_eq!(coordinator.tick(101_000, 90_000, 5_000), vec![Delivery::Delivered]);
    assert_eq!(coordinator.task_status(21), Some(TaskStatus::Completed));
    assert_eq!(coordinator.task_status(22), Some(TaskStatus::Assigned));
    assert_eq!(received(&mut inbox).id, 22);

    // Nothing is due: the round does nothing.
    coordinator.heartbeat(1, health(1, WorkerStatus::Busy, 1, 101_500));
    assert_eq!(coordinator.tick(102_000, 90_000, 5_000), Vec::<Delivery>::new());
    assert_accounted(&coordinator);

    // An inbox that is gone gives the task back: it waits again.
    drop(inbox);
    coordinator.ingest_result(result(22, TaskStatus::Completed));
    coordinator.submit_task(task(23, TaskPriority::Normal, 4)).unwrap();
    assert_eq!(coordinator.tick(103_000, 90_000, 5_000), vec![Delivery::Returned]);
    assert_eq!(coordinator.task_status(23), Some(TaskStatus::Pending));
    assert_eq!(load_of(&coordinator, 1), 0);
    assert_accounted(&coordinator);
}
