use swarm::documents::create_document_from_path;
use swarm::error::SwarmError;
use swarm::swarm_worker::{can_plan, plan_work, Work, WorkOutcome};
use swarm::{DocumentContent, DocumentType};

#[test]
fn the_demonstration_worker_goes_by_the_kind_of_the_task() {
    assert_eq!(plan_work("echo", Some(5)), Work { delay_ms: 100, outcome: WorkOutcome::Echo });
    assert_eq!(plan_work("echo", None), Work { delay_ms: 100, outcome: WorkOutcome::Echo });
    assert_eq!(
        plan_work("compute", Some(21)),
        Work { delay_ms: 200, outcome: WorkOutcome::Number(42) }
    );
    assert_eq!(
        plan_work("compute", Some(-4)),
        Work { delay_ms: 200, outcome: WorkOutcome::Number(-8) }
    );
    assert_eq!(
        plan_work("compute", None),
        Work { delay_ms: 200, outcome: WorkOutcome::Number(0) }
    );
    assert_eq!(
        plan_work("error", Some(1)),
        Work {
            delay_ms: 50,
            outcome: WorkOutcome::Failure("Simulated processing error".to_string())
        }
    );
    assert_eq!(
        plan_work("Echo", None),
        Work { delay_ms: 50, outcome: WorkOutcome::Failure("Unknown task type: Echo".to_string()) }
    );
    assert_eq!(
        plan_work("", None),
        Work { delay_ms: 50, outcome: WorkOutcome::Failure("Unknown task type: ".to_string()) }
    );
}

#[test]
fn only_numbers_that_can_be_doubled_are_computed_with() {
    assert!(can_plan("compute", None));
    assert!(can_plan("compute", Some(i64::MAX / 2)));
    assert!(!can_plan("compute", Some(i64::MAX / 2 + 1)));
    assert!(can_plan("compute", Some(i64::MIN / 2)));
    assert!(!can_plan("compute", Some(i64::MIN / 2 - 1)));
    assert!(can_plan("echo", Some(i64::MAX)));
    assert!(can_plan("other", Some(i64::MIN)));
    assert_eq!(
        plan_work("compute", Some(i64::MAX / 2)).outcome,
        WorkOutcome::Number(i64::MAX - 1)
    );
    assert_eq!(plan_work("compute", Some(i64::MIN / 2)).outcome, WorkOutcome::Number(i64::MIN));
}

#[test]
fn the_errors_of_the_swarm_say_where_they_come_from() {
    let text = |message: &str| message.to_string();
    assert_eq!(SwarmError::Worker(text("w")).to_string(), "Worker error: w");
    assert_eq!(SwarmError::Task(text("t")).to_string(), "Task error: t");
    assert_eq!(SwarmError::Communication(text("c")).to_string(), "Communication error: c");
    assert_eq!(SwarmError::Coordination(text("")).to_string(), "Coordination error: ");
    assert_eq!(SwarmError::Io(text("gone")).to_string(), "IO error: gone");
    assert_eq!(SwarmError::Serialization(text("eof")).to_string(), "Serialization error: eof");
}

#[test]
fn a_document_is_made_of_a_file() {
    let document = create_document_from_path(
        "/data/My \"Report\".PDF",
        Some("My \"Report\".PDF"),
        Some("PDF"),
        3,
        DocumentContent::Binary(vec![1, 2, 3]),
    );
    assert_ne!(document.id, 0);
    assert_eq!(document.filename, "My \"Report\".PDF");
    assert_eq!(document.document_type, DocumentType::Pdf);
    assert_eq!(document.content, DocumentContent::Binary(vec![1, 2, 3]));
    assert_eq!(document.size_bytes, 3);
    assert!(document.created_at > 1_600_000_000_000);
    assert_eq!(document.metadata.len(), 3);
    assert_eq!(document.metadata.get("file_path"), Some("\"/data/My \\\"Report\\\".PDF\""));
    assert_eq!(document.metadata.get("file_size"), Some("3"));
    assert_eq!(document.metadata.get("mime_type"), Some("\"application/pdf\""));

    let bare = create_document_from_path("/", None, None, 0, DocumentContent::Text(String::new()));
    assert_eq!(bare.filename, "unknown");
    assert_eq!(bare.document_type, DocumentType::Unknown);
    assert_eq!(bare.metadata.get("mime_type"), Some("\"application/octet-stream\""));
    assert_ne!(bare.id, document.id);
}

#[test]
fn the_default_worker_is_generic() {
    let config = swarm::swarm_worker::WorkerConfig::default();
    assert_eq!(config.max_concurrent_tasks, 10);
    assert_eq!(config.worker_type, "generic");
    assert_eq!(config.capabilities, vec!["basic".to_string()]);
}
