use swarm::queue::{enqueue, is_before};
use swarm::scheduler::{
    coverage, covers_requirements, has_capability, is_better, is_eligible, is_fast_enough,
    is_preferred, score, select_worker, supports_kind,
};
use swarm::{
    PerformanceProfile, Score, Task, TaskPayload, TaskPriority, TaskRequirements, TaskStatus,
    TaskType, TextMap, WorkerCapability, WorkerRecord, WorkerStatus, WorkerType,
};

fn profile(avg_ms: u64) -> PerformanceProfile {
    PerformanceProfile {
        avg_processing_time_ms: avg_ms,
        memory_usage_mb: 512,
        cpu_intensity_bits: 0.5f32.to_bits(),
        throughput_per_second_bits: 10.0f32.to_bits(),
    }
}

fn echo() -> TaskType {
    TaskType::Custom { name: "echo".to_string(), version: "1".to_string() }
}

fn capability(name: &str, kinds: Vec<TaskType>) -> WorkerCapability {
    WorkerCapability {
        name: name.to_string(),
        version: "1.0.0".to_string(),
        supported_task_types: kinds,
        max_concurrent_tasks: 5,
        performance_profile: profile(100),
        metadata: TextMap::new(),
    }
}

fn worker(id: u128, capabilities: &[&str], load: usize, max: usize) -> WorkerRecord {
    WorkerRecord {
        id,
        name: format!("worker-{}", id),
        worker_type: WorkerType::Custom { name: "generic".to_string(), version: "1".to_string() },
        capabilities: capabilities.iter().map(|name| capability(name, vec![echo()])).collect(),
        performance_profile: profile(100),
        max_concurrent_tasks: max,
        current_load: load,
        status: WorkerStatus::Running,
        last_heartbeat: 0,
        error_count: 0,
        success_count: 0,
    }
}

fn task(id: u128, required: &[&str]) -> Task {
    Task {
        id,
        task_type: echo(),
        priority: TaskPriority::Normal,
        status: TaskStatus::Pending,
        payload: TaskPayload::Custom { data: vec![1], format: "json".to_string() },
        requirements: TaskRequirements {
            required_capabilities: required.iter().map(|name| name.to_string()).collect(),
            preferred_worker_type: None,
            max_processing_time_ms: None,
            min_memory_mb: None,
        },
        created_at: 0,
        deadline: None,
        retry_count: 0,
        max_retries: 3,
        metadata: TextMap::new(),
    }
}

#[test]
fn the_score_is_the_weighted_sum_of_coverage_preference_and_speed() {
    let two_of_three = worker(1, &["a", "b"], 0, 1);
    let mut wanted = task(1, &["a", "b", "c"]);
    // Coverage 2/3, no preference, no limit on time: 0.6 * 2/3 + 0.1 = 0.5.
    assert_eq!(score(&two_of_three, &wanted), Score { numerator: 150, denominator: 300 });
    wanted.requirements.preferred_worker_type =
        Some(WorkerType::Custom { name: "generic".to_string(), version: "1".to_string() });
    // With the preferred type: 0.4 + 0.3 + 0.1 = 0.8.
    assert_eq!(score(&two_of_three, &wanted), Score { numerator: 240, denominator: 300 });
    wanted.requirements.max_processing_time_ms = Some(99);
    // Too slow by a millisecond: 0.4 + 0.3 = 0.7.
    assert_eq!(score(&two_of_three, &wanted), Score { numerator: 210, denominator: 300 });
    wanted.requirements.max_processing_time_ms = Some(100);
    assert_eq!(score(&two_of_three, &wanted), Score { numerator: 240, denominator: 300 });
    wanted.requirements.preferred_worker_type =
        Some(WorkerType::Custom { name: "generic".to_string(), version: "2".to_string() });
    assert_eq!(score(&two_of_three, &wanted), Score { numerator: 150, denominator: 300 });
}

#[test]
fn a_task_without_requirements_is_fully_covered() {
    let anyone = worker(1, &[], 0, 1);
    let free = task(1, &[]);
    // 0.6 + 0.1 = 0.7.
    assert_eq!(score(&anyone, &free), Score { numerator: 70, denominator: 100 });
    assert_eq!(coverage(&anyone, &free), (0, 0));
    let mut preferring = task(2, &[]);
    preferring.requirements.preferred_worker_type = Some(anyone.worker_type.clone());
    assert_eq!(score(&anyone, &preferring), Score { numerator: 100, denominator: 100 });
    preferring.requirements.max_processing_time_ms = Some(1);
    assert_eq!(score(&anyone, &preferring), Score { numerator: 90, denominator: 100 });
}

#[test]
fn required_capabilities_count_as_a_set() {
    let has_a = worker(1, &["a", "a", "x"], 0, 1);
    let repeated = task(1, &["a", "b", "a", "b", "b"]);
    assert_eq!(coverage(&has_a, &repeated), (1, 2));
    assert_eq!(score(&has_a, &repeated), Score { numerator: 80, denominator: 200 });
    assert!(!covers_requirements(&has_a, &repeated));
    let only_a = task(2, &["a", "a"]);
    assert_eq!(coverage(&has_a, &only_a), (1, 1));
    assert!(covers_requirements(&has_a, &only_a));
    assert!(has_capability(&has_a, &"x".to_string()));
    assert!(!has_capability(&has_a, &"b".to_string()));
}

#[test]
fn a_worker_is_eligible_if_it_covers_supports_serves_and_has_capacity() {
    let wanted = task(1, &["a"]);
    assert!(is_eligible(&worker(1, &["a"], 0, 1), &wanted));
    assert!(is_eligible(&worker(1, &["a", "b"], 2, 3), &wanted));
    // No capacity.
    assert!(!is_eligible(&worker(1, &["a"], 1, 1), &wanted));
    // Does not cover.
    assert!(!is_eligible(&worker(1, &["b"], 0, 1), &wanted));
    // Not in service.
    for status in [
        WorkerStatus::Starting,
        WorkerStatus::Error("x".to_string()),
        WorkerStatus::Shutdown,
    ] {
        let mut out = worker(1, &["a"], 0, 1);
        out.status = status;
        assert!(!is_eligible(&out, &wanted));
    }
    for status in [WorkerStatus::Running, WorkerStatus::Idle, WorkerStatus::Busy] {
        let mut serving = worker(1, &["a"], 0, 1);
        serving.status = status;
        assert!(is_eligible(&serving, &wanted));
    }
    // Does not support the kind.
    let mut other = task(2, &["a"]);
    other.task_type = TaskType::Custom { name: "echo".to_string(), version: "2".to_string() };
    assert!(!is_eligible(&worker(1, &["a"], 0, 1), &other));
    assert!(!supports_kind(&worker(1, &["a"], 0, 1), &other.task_type));
    assert!(supports_kind(&worker(1, &["a"], 0, 1), &echo()));
    assert!(!supports_kind(&worker(1, &[], 0, 1), &echo()));
}

#[test]
fn a_worker_that_takes_no_task_at_a_time_never_receives_one() {
    let wanted = task(1, &[]);
    let idle = worker(1, &["a"], 0, 0);
    assert!(!is_eligible(&idle, &wanted));
    assert_eq!(select_worker(&vec![idle], &wanted), None);
    assert_eq!(select_worker(&vec![worker(1, &["a"], 0, 0), worker(2, &["a"], 0, 1)], &wanted), Some(1));
}

#[test]
fn a_worker_that_does_not_cover_the_requirements_is_never_chosen() {
    let wanted = task(1, &["a", "b"]);
    let covering = worker(9, &["a", "b"], 4, 5);
    let lacking = worker(1, &["a"], 0, 5);
    assert_eq!(select_worker(&vec![lacking.clone(), covering.clone()], &wanted), Some(1));
    assert_eq!(select_worker(&vec![covering, lacking.clone()], &wanted), Some(0));
    assert_eq!(select_worker(&vec![lacking], &wanted), None);
    assert_eq!(select_worker(&vec![], &wanted), None);
}

#[test]
fn ties_go_to_the_lower_load_and_then_to_the_lower_identifier() {
    let wanted = task(1, &["a"]);
    // Loads 0 and 1: the idle worker wins, wherever it stands.
    assert_eq!(select_worker(&vec![worker(1, &["a"], 1, 5), worker(2, &["a"], 0, 5)], &wanted), Some(1));
    assert_eq!(select_worker(&vec![worker(2, &["a"], 0, 5), worker(1, &["a"], 1, 5)], &wanted), Some(0));
    // Equal loads: the lower identifier wins, wherever it stands.
    assert_eq!(select_worker(&vec![worker(7, &["a"], 1, 5), worker(3, &["a"], 1, 5)], &wanted), Some(1));
    assert_eq!(select_worker(&vec![worker(3, &["a"], 1, 5), worker(7, &["a"], 1, 5)], &wanted), Some(0));
    // The score comes before the load.
    let mut preferring = task(2, &["a"]);
    preferring.requirements.preferred_worker_type =
        Some(WorkerType::Custom { name: "special".to_string(), version: "1".to_string() });
    let mut special = worker(9, &["a"], 4, 5);
    special.worker_type = WorkerType::Custom { name: "special".to_string(), version: "1".to_string() };
    let plain = worker(1, &["a"], 0, 5);
    assert_eq!(select_worker(&vec![plain.clone(), special.clone()], &preferring), Some(1));
    assert!(is_better(&special, &plain, &preferring));
    assert!(!is_better(&plain, &special, &preferring));
    assert!(is_preferred(&special, &preferring));
    assert!(!is_preferred(&plain, &preferring));
    assert!(!is_preferred(&plain, &wanted));
    assert!(is_fast_enough(&plain, &wanted));
    // Identifiers compare as their canonical texts do.
    let low = uuid::Uuid::parse_str("0fffffff-ffff-ffff-ffff-ffffffffffff").unwrap();
    let high = uuid::Uuid::parse_str("a0000000-0000-0000-0000-000000000000").unwrap();
    assert!(low.to_string() < high.to_string());
    assert_eq!(
        select_worker(
            &vec![worker(high.as_u128(), &["a"], 0, 5), worker(low.as_u128(), &["a"], 0, 5)],
            &wanted
        ),
        Some(1)
    );
}

#[test]
fn tasks_wait_by_priority_and_then_by_age() {
    let mut queue: Vec<Task> = Vec::new();
    let mut add = |id: u128, priority: TaskPriority, created_at: i64| {
        let mut t = task(id, &[]);
        t.priority = priority;
        t.created_at = created_at;
        enqueue(&mut queue, t);
    };
    add(1, TaskPriority::Low, 1);
    add(2, TaskPriority::Critical, 2);
    add(3, TaskPriority::Normal, 3);
    add(4, TaskPriority::High, 4);
    add(5, TaskPriority::Normal, 1);
    add(6, TaskPriority::Normal, 3);
    add(7, TaskPriority::Critical, 2);
    let order: Vec<u128> = queue.iter().map(|t| t.id).collect();
    assert_eq!(order, vec![2, 7, 4, 5, 3, 6, 1]);
    assert!(is_before(&queue[0], &queue[1]));
    assert!(is_before(&queue[1], &queue[0]));
    assert!(is_before(&queue[2], &queue[3]));
    assert!(!is_before(&queue[3], &queue[2]));
    assert!(!is_before(&queue[4], &queue[3]));
}

#[test]
fn identifiers_stand_in_the_order_of_their_texts() {
    let ids: [u128; 8] = [
        0,
        1,
        9,
        10,
        0x0000_0000_ffff_0000_0000_0000_0000_0000,
        0x0000_0001_0000_0000_0000_0000_0000_0000,
        0xa000_0000_0000_0000_0000_0000_0000_0000,
        u128::MAX,
    ];
    for a in ids {
        for b in ids {
            let texts = uuid::Uuid::from_u128(a).to_string() < uuid::Uuid::from_u128(b).to_string();
            assert_eq!(a < b, texts, "{a:x} {b:x}");
        }
    }
}
