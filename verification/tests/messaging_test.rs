use swarm::bus::{
    check_publish_size, received_message, relay, relayed, resubscribe_delay_ms, sent_outcome,
    Relay, RestartDecision, RestartGuard, SendError,
};
use swarm::channel::ReceiveFailure;
use swarm::{
    Document, DocumentContent, DocumentProcessingOptions, DocumentProcessingType, DocumentType,
    FramingError, Message, MessageBrokerStats, MessageError, MessageRouter, MessageRoutingConfig,
    MessageSerializer, MessageSubscriptionManager, MessageValidator, NatsConfig,
    NatsMessageSubscription, NatsStats, Task, TaskPayload, TaskPriority, TaskRequirements,
    TaskResult, TaskStatus, TaskType, TextMap, ValidationError,
};

fn new_id() -> u128 {
    uuid::Uuid::new_v4().as_u128()
}

fn now() -> i64 {
    chrono::Utc::now().timestamp_millis()
}

fn message(subject: &str, payload: Vec<u8>) -> Message {
    Message {
        id: new_id(),
        subject: subject.to_string(),
        payload,
        headers: TextMap::new(),
        timestamp: now(),
        ttl_ms: None,
    }
}

/// The number of bytes that a message takes on the wire, written as JSON.
fn wire_length(message: &Message) -> usize {
    let mut headers = serde_json::Map::new();
    for index in 0..message.headers.len() {
        headers.insert(
            message.headers.key_at(index).to_string(),
            serde_json::Value::from(message.headers.value_at(index)),
        );
    }
    let timestamp = chrono::DateTime::from_timestamp_millis(message.timestamp)
        .unwrap()
        .to_rfc3339_opts(chrono::SecondsFormat::AutoSi, true);
    let mut envelope = serde_json::Map::new();
    envelope.insert(
        "id".to_string(),
        serde_json::Value::from(uuid::Uuid::from_u128(message.id).to_string()),
    );
    envelope.insert("subject".to_string(), serde_json::Value::from(message.subject.as_str()));
    envelope.insert("payload".to_string(), serde_json::Value::from(message.payload.clone()));
    envelope.insert("headers".to_string(), serde_json::Value::Object(headers));
    envelope.insert("timestamp".to_string(), serde_json::Value::from(timestamp));
    envelope.insert(
        "ttl_ms".to_string(),
        match message.ttl_ms {
            Some(ttl) => serde_json::Value::from(ttl),
            None => serde_json::Value::Null,
        },
    );
    serde_json::to_vec(&serde_json::Value::Object(envelope)).unwrap().len()
}

fn text_document() -> Document {
    Document {
        id: new_id(),
        filename: "test.txt".to_string(),
        document_type: DocumentType::Text,
        content: DocumentContent::Text("test content".to_string()),
        metadata: TextMap::new(),
        created_at: now(),
        size_bytes: 100,
    }
}

fn pdf_task() -> Task {
    Task {
        id: new_id(),
        task_type: TaskType::DocumentProcessing {
            document_type: DocumentType::Pdf,
            processing_type: DocumentProcessingType::TextExtraction,
        },
        priority: TaskPriority::High,
        status: TaskStatus::Pending,
        payload: TaskPayload::Document {
            document: Document {
                id: new_id(),
                filename: "test.pdf".to_string(),
                document_type: DocumentType::Pdf,
                content: DocumentContent::Binary(vec![1, 2, 3]),
                metadata: TextMap::new(),
                created_at: now(),
                size_bytes: 100,
            },
            processing_options: DocumentProcessingOptions::default(),
        },
        requirements: TaskRequirements::none(),
        created_at: now(),
        deadline: None,
        retry_count: 0,
        max_retries: 3,
        metadata: TextMap::new(),
    }
}

/// A JSON object with the given text fields, written with serde_json.
fn json_of(fields: &[(&str, String)]) -> Vec<u8> {
    let mut object = serde_json::Map::new();
    for (name, value) in fields {
        object.insert(name.to_string(), serde_json::Value::String(value.clone()));
    }
    serde_json::to_vec(&serde_json::Value::Object(object)).unwrap()
}

#[test]
fn test_serialize_document() {
    let document = text_document();
    let encoded = json_of(&[
        ("filename", document.filename.clone()),
        ("document_type", document.document_type.as_str().to_string()),
    ]);

    let message = MessageSerializer::serialize_document(&document, encoded);
    assert_eq!(message.subject, "swarm.documents.incoming");
    assert!(message.headers.contains_key("document-type"));
    assert!(message.headers.contains_key("document-id"));

    let deserialized: serde_json::Value = serde_json::from_slice(&message.payload).unwrap();
    assert_eq!(deserialized["filename"], document.filename);
    assert_eq!(deserialized["document_type"], "Text");
}

#[test]
fn test_serialize_task() {
    let task = pdf_task();
    let encoded = json_of(&[
        ("id", uuid::Uuid::from_u128(task.id).to_string()),
        ("priority", task.priority.as_str().to_string()),
    ]);

    let message = MessageSerializer::serialize_task(&task, encoded);
    assert_eq!(message.subject, "swarm.tasks.assignments");
    assert!(message.headers.contains_key("task-type"));
    assert!(message.headers.contains_key("task-id"));
    assert!(message.headers.contains_key("priority"));

    let deserialized: serde_json::Value = serde_json::from_slice(&message.payload).unwrap();
    assert_eq!(deserialized["id"], uuid::Uuid::from_u128(task.id).to_string());
    assert_eq!(deserialized["priority"], "High");
}

#[test]
fn test_create_heartbeat() {
    let message = MessageSerializer::create_heartbeat("worker-1", "document-processor").unwrap();
    assert_eq!(message.subject, "swarm.heartbeat");
    assert!(message.headers.contains_key("component-id"));
    assert!(message.headers.contains_key("component-type"));

    let heartbeat_data: serde_json::Value = serde_json::from_slice(&message.payload).unwrap();
    assert_eq!(heartbeat_data["component_id"], "worker-1");
    assert_eq!(heartbeat_data["component_type"], "document-processor");
    assert_eq!(heartbeat_data["status"], "alive");
}

#[test]
fn test_create_error_message() {
    let mut context = TextMap::new();
    context.insert("file".to_string(), "test.txt".to_string());
    context.insert("line".to_string(), "42".to_string());

    let message = MessageSerializer::create_error_message(
        "processing_error",
        "Failed to process document",
        "worker-1",
        Some(context),
    )
    .unwrap();

    assert_eq!(message.subject, "swarm.errors");
    assert!(message.headers.contains_key("error-type"));
    assert!(message.headers.contains_key("component-id"));

    let error_data: serde_json::Value = serde_json::from_slice(&message.payload).unwrap();
    assert_eq!(error_data["error_type"], "processing_error");
    assert_eq!(error_data["error_message"], "Failed to process document");
    assert_eq!(error_data["component_id"], "worker-1");
}

#[test]
fn test_validate_message() {
    let valid_message = message("test.subject", b"test".to_vec());
    assert!(MessageValidator::validate_message(&valid_message).is_ok());

    let invalid_message = message("", b"test".to_vec());
    assert!(MessageValidator::validate_message(&invalid_message).is_err());
}

#[test]
fn test_validate_message_size() {
    let message = message("test.subject", vec![0; 1000]);
    // On the wire every byte of the payload is a digit and a comma, and the
    // identifier, the subject and the time come on top.
    let size = wire_length(&message);
    assert!(size > 2000);
    assert!(MessageValidator::validate_message_size(size, 2000).is_err());
    assert!(MessageValidator::validate_message_size(size, 500).is_err());
    assert!(MessageValidator::validate_message_size(size, size).is_ok());
    assert_eq!(
        MessageValidator::validate_message_size(size, size - 1),
        Err(ValidationError::TooLarge { size, max_size: size - 1 })
    );
}

#[test]
fn test_message_subscription_manager() {
    let mut manager = MessageSubscriptionManager::new();

    // Create a subscription
    let mut receiver = manager.create_subscription("test.subject");

    // Send a message
    let message = message("test.subject", b"test message".to_vec());
    manager.send_message("test.subject", message.clone()).unwrap();

    // Receive the message
    let received = receiver.try_recv().unwrap();
    assert_eq!(received.subject, message.subject);
    assert_eq!(received.payload, message.payload);
}

#[test]
fn test_message_routing_config() {
    let config = MessageRoutingConfig::default();
    assert_eq!(config.subject_prefix, "swarm");
    assert_eq!(config.document_subjects.incoming, "swarm.documents.incoming");
    assert_eq!(config.task_subjects.assignments, "swarm.tasks.assignments");
    assert_eq!(config.worker_subjects.registration, "swarm.workers.registration");
}

#[test]
fn test_message_router() {
    let config = MessageRoutingConfig::default();
    let router = MessageRouter::new(config);

    assert_eq!(router.document_incoming_subject(), "swarm.documents.incoming");
    assert_eq!(router.task_assignment_subject(), "swarm.tasks.assignments");
    assert_eq!(router.worker_registration_subject(), "swarm.workers.registration");

    let custom_subject = router.create_subject(&["custom", "subject"]);
    assert_eq!(custom_subject, "swarm.custom.subject");
}

#[test]
fn test_nats_config_default() {
    let config = NatsConfig::default();
    assert_eq!(config.url, "nats://localhost:4222");
    assert_eq!(config.connection_timeout_ms, 5000);
    assert_eq!(config.max_reconnect_attempts, 10);
    assert!(!config.enable_tls);
}

#[test]
fn test_nats_stats_default() {
    let stats = NatsStats::default();
    assert_eq!(stats.messages_sent, 0);
    assert_eq!(stats.messages_received, 0);
    assert_eq!(stats.active_subscriptions, 0);
    assert!(!stats.is_connected);
    assert_eq!(stats.reconnection_count, 0);
    assert_eq!(stats.error_count, 0);
}

#[test]
fn the_router_hands_out_every_subject() {
    let router = MessageRouter::new(MessageRoutingConfig::default());
    assert_eq!(router.document_results_subject(), "swarm.documents.results");
    assert_eq!(router.document_errors_subject(), "swarm.documents.errors");
    assert_eq!(router.task_results_subject(), "swarm.tasks.results");
    assert_eq!(router.task_status_subject(), "swarm.tasks.status");
    assert_eq!(router.worker_health_subject(), "swarm.workers.health");
    assert_eq!(router.worker_status_subject(), "swarm.workers.status");
    assert_eq!(router.create_subject(&[]), "swarm");
    assert_eq!(router.create_subject(&["a"]), "swarm.a");
    let mut config = MessageRoutingConfig::default();
    config.subject_prefix = "lab".to_string();
    config.task_subjects.results = "lab.out".to_string();
    let copy = config.clone();
    assert_eq!(copy, config);
    let router = MessageRouter::new(config);
    assert_eq!(router.create_subject(&["x", "y", "z"]), "lab.x.y.z");
    assert_eq!(router.task_results_subject(), "lab.out");
}

#[test]
fn the_default_configuration_is_the_documented_one() {
    let config = NatsConfig::default();
    assert_eq!(config.reconnect_delay_ms, 1000);
    assert_eq!(config.max_message_size, 1_048_576);
    assert_eq!(config.tls_cert_path, None);
    assert_eq!(config.tls_key_path, None);
    assert_eq!(config.tls_ca_path, None);
    let routing = MessageRoutingConfig::default();
    assert_eq!(routing.document_subjects.results, "swarm.documents.results");
    assert_eq!(routing.document_subjects.errors, "swarm.documents.errors");
    assert_eq!(routing.task_subjects.results, "swarm.tasks.results");
    assert_eq!(routing.task_subjects.status, "swarm.tasks.status");
    assert_eq!(routing.worker_subjects.health, "swarm.workers.health");
    assert_eq!(routing.worker_subjects.status, "swarm.workers.status");
}

#[test]
fn a_message_of_exactly_the_limit_is_published_and_one_byte_more_is_not() {
    assert!(check_publish_size(1_048_576, 1_048_576).is_ok());
    assert_eq!(
        check_publish_size(1_048_577, 1_048_576),
        Err(MessageError::MessageTooLarge { size: 1_048_577, max_size: 1_048_576 })
    );
    assert!(check_publish_size(0, 0).is_ok());
    assert!(check_publish_size(1, 0).is_err());

    // The identifier alone takes thirty-six bytes on the wire.
    let small = message("test.subject", b"test".to_vec());
    let size = wire_length(&small);
    assert!(size > 16 + 36);
    assert!(MessageValidator::validate_message_size(size, 16).is_err());
    assert!(MessageValidator::validate_message_size(size, size).is_ok());
    assert_eq!(
        MessageValidator::validate_message_size(size + 1, size),
        Err(ValidationError::TooLarge { size: size + 1, max_size: size })
    );
    assert!(MessageValidator::validate_message_size(0, 0).is_ok());
    assert!(MessageValidator::validate_message_size(usize::MAX, usize::MAX).is_ok());
    assert_eq!(
        MessageValidator::validate_message_size(usize::MAX, usize::MAX - 1),
        Err(ValidationError::TooLarge { size: usize::MAX, max_size: usize::MAX - 1 })
    );
}

#[test]
fn a_time_to_live_of_zero_or_of_more_than_an_hour_is_rejected() {
    let mut checked = message("s", vec![1]);
    assert_eq!(MessageValidator::validate_message_ttl(&checked), Ok(()));
    checked.ttl_ms = Some(0);
    assert_eq!(MessageValidator::validate_message_ttl(&checked), Err(ValidationError::ZeroTtl));
    checked.ttl_ms = Some(1);
    assert_eq!(MessageValidator::validate_message_ttl(&checked), Ok(()));
    checked.ttl_ms = Some(3_600_000);
    assert_eq!(MessageValidator::validate_message_ttl(&checked), Ok(()));
    checked.ttl_ms = Some(3_600_001);
    assert_eq!(MessageValidator::validate_message_ttl(&checked), Err(ValidationError::TtlTooLong));
    checked.ttl_ms = Some(u64::MAX);
    assert_eq!(MessageValidator::validate_message_ttl(&checked), Err(ValidationError::TtlTooLong));
}

#[test]
fn the_structure_of_a_message_is_checked_in_order() {
    let mut checked = message("", vec![]);
    checked.id = 0;
    assert_eq!(MessageValidator::validate_message(&checked), Err(ValidationError::EmptySubject));
    checked.subject = "s".to_string();
    assert_eq!(MessageValidator::validate_message(&checked), Err(ValidationError::EmptyPayload));
    checked.payload = vec![0];
    assert_eq!(MessageValidator::validate_message(&checked), Err(ValidationError::NilId));
    checked.id = 1;
    assert_eq!(MessageValidator::validate_message(&checked), Ok(()));
}

#[test]
fn messages_have_to_carry_the_headers_of_their_subject() {
    let mut task = message("swarm.tasks.assignments", vec![1]);
    assert_eq!(
        MessageValidator::validate_message_headers(&task),
        Err(ValidationError::MissingHeader)
    );
    task.headers.insert("task-id".to_string(), "x".to_string());
    assert_eq!(
        MessageValidator::validate_message_headers(&task),
        Err(ValidationError::MissingHeader)
    );
    task.headers.insert("priority".to_string(), "High".to_string());
    assert_eq!(MessageValidator::validate_message_headers(&task), Ok(()));

    let mut result = message("swarm.tasks.results", vec![1]);
    result.headers.insert("task-id".to_string(), "x".to_string());
    assert!(MessageValidator::validate_message_headers(&result).is_err());
    result.headers.insert("status".to_string(), "Completed".to_string());
    assert!(MessageValidator::validate_message_headers(&result).is_ok());

    let mut document = message("swarm.documents.incoming", vec![1]);
    assert!(MessageValidator::validate_message_headers(&document).is_err());
    document.headers.insert("document-id".to_string(), "x".to_string());
    assert!(MessageValidator::validate_message_headers(&document).is_ok());

    for subject in ["swarm.workers.registration", "swarm.workers.health", "swarm.workers.status"] {
        let mut worker = message(subject, vec![1]);
        assert!(MessageValidator::validate_message_headers(&worker).is_err());
        worker.headers.insert("worker-id".to_string(), "x".to_string());
        assert!(MessageValidator::validate_message_headers(&worker).is_ok());
    }

    let mut heartbeat = message("swarm.heartbeat", vec![1]);
    heartbeat.headers.insert("component-id".to_string(), "x".to_string());
    assert!(MessageValidator::validate_message_headers(&heartbeat).is_err());
    heartbeat.headers.insert("component-type".to_string(), "y".to_string());
    assert!(MessageValidator::validate_message_headers(&heartbeat).is_ok());

    assert!(MessageValidator::validate_message_headers(&message("swarm.errors", vec![1])).is_ok());
    assert!(MessageValidator::validate_message_headers(&message("anything", vec![1])).is_ok());
}

#[test]
fn framed_messages_pass_every_check() {
    let document = text_document();
    let framed = MessageSerializer::serialize_document(&document, vec![1, 2, 3]);
    assert!(MessageValidator::validate_message(&framed).is_ok());
    assert!(MessageValidator::validate_message_ttl(&framed).is_ok());
    assert!(MessageValidator::validate_message_headers(&framed).is_ok());
    let task = pdf_task();
    let framed = MessageSerializer::serialize_task(&task, vec![1]);
    assert!(MessageValidator::validate_message(&framed).is_ok());
    assert!(MessageValidator::validate_message_ttl(&framed).is_ok());
    assert!(MessageValidator::validate_message_headers(&framed).is_ok());
    let heartbeat = MessageSerializer::create_heartbeat("c", "t").unwrap();
    assert!(MessageValidator::validate_message(&heartbeat).is_ok());
    assert!(MessageValidator::validate_message_ttl(&heartbeat).is_ok());
    assert!(MessageValidator::validate_message_headers(&heartbeat).is_ok());
}

#[test]
fn a_document_is_framed_exactly() {
    let mut document = text_document();
    document.id = 0xa1a2a3a4b1b2c1c2d1d2d3d4d5d6d7d8;
    let framed = MessageSerializer::frame_document(&document, vec![9, 8], 77, 1_700_000_000_000);
    let mut headers = TextMap::new();
    headers.insert("content-type".to_string(), "application/json".to_string());
    headers.insert("document-type".to_string(), "Text".to_string());
    headers.insert("document-id".to_string(), "a1a2a3a4-b1b2-c1c2-d1d2-d3d4d5d6d7d8".to_string());
    assert_eq!(
        framed,
        Message {
            id: 77,
            subject: "swarm.documents.incoming".to_string(),
            payload: vec![9, 8],
            headers,
            timestamp: 1_700_000_000_000,
            ttl_ms: Some(300_000),
        }
    );
}

#[test]
fn a_task_and_its_result_are_framed_exactly() {
    let mut task = pdf_task();
    task.id = 1;
    let framed = MessageSerializer::frame_task(&task, vec![5], 2, 3);
    assert_eq!(framed.id, 2);
    assert_eq!(framed.timestamp, 3);
    assert_eq!(framed.subject, "swarm.tasks.assignments");
    assert_eq!(framed.payload, vec![5]);
    assert_eq!(framed.ttl_ms, Some(600_000));
    assert_eq!(framed.headers.len(), 4);
    assert_eq!(framed.headers.get("content-type"), Some("application/json"));
    assert_eq!(
        framed.headers.get("task-type"),
        Some("DocumentProcessing { document_type: Pdf, processing_type: TextExtraction }")
    );
    assert_eq!(framed.headers.get("task-id"), Some("00000000-0000-0000-0000-000000000001"));
    assert_eq!(framed.headers.get("priority"), Some("High"));

    let result = TaskResult {
        task_id: u128::MAX,
        status: TaskStatus::Completed,
        result: None,
        error: None,
        processing_time_ms: 5,
        completed_at: 9,
        metadata: TextMap::new(),
    };
    let framed = MessageSerializer::frame_task_result(&result, vec![6], 4, 5);
    assert_eq!(framed.subject, "swarm.tasks.results");
    assert_eq!(framed.ttl_ms, Some(900_000));
    assert_eq!(framed.headers.len(), 3);
    assert_eq!(framed.headers.get("task-id"), Some("ffffffff-ffff-ffff-ffff-ffffffffffff"));
    assert_eq!(framed.headers.get("status"), Some("Completed"));
    let fresh = MessageSerializer::serialize_task_result(&result, vec![6]);
    assert_ne!(fresh.id, 0);
    assert_eq!(fresh.headers, framed.headers);

    let status = MessageSerializer::frame_worker_status(0x0123456789abcdef0011223344556677, vec![1], 8, 9);
    assert_eq!(status.subject, "swarm.workers.status");
    assert_eq!(status.ttl_ms, Some(60_000));
    assert_eq!(status.headers.len(), 2);
    assert_eq!(status.headers.get("worker-id"), Some("01234567-89ab-cdef-0011-223344556677"));
    let fresh = MessageSerializer::serialize_worker_status(7, vec![1]);
    assert_eq!(fresh.headers.get("worker-id"), Some("00000000-0000-0000-0000-000000000007"));
    assert!(fresh.timestamp >= 0);
}

#[test]
fn a_heartbeat_is_framed_exactly() {
    let framed = MessageSerializer::frame_heartbeat("w\"1", "kind", 5, 947_638_923_004).unwrap();
    assert_eq!(framed.id, 5);
    assert_eq!(framed.timestamp, 947_638_923_004);
    assert_eq!(framed.subject, "swarm.heartbeat");
    assert_eq!(framed.ttl_ms, Some(30_000));
    assert_eq!(framed.headers.len(), 3);
    assert_eq!(framed.headers.get("component-id"), Some("w\"1"));
    assert_eq!(framed.headers.get("component-type"), Some("kind"));
    let data: serde_json::Value = serde_json::from_slice(&framed.payload).unwrap();
    let object = data.as_object().unwrap();
    assert_eq!(object.len(), 4);
    assert_eq!(data["component_id"], "w\"1");
    assert_eq!(data["component_type"], "kind");
    assert_eq!(data["timestamp"], "2000-01-12T01:02:03.004Z");
    assert_eq!(data["status"], "alive");
    // Whole seconds are written without a fraction.
    let whole = MessageSerializer::frame_heartbeat("a", "b", 5, 0).unwrap();
    let data: serde_json::Value = serde_json::from_slice(&whole.payload).unwrap();
    assert_eq!(data["timestamp"], "1970-01-01T00:00:00Z");
    // A time that no calendar holds cannot be framed.
    assert_eq!(
        MessageSerializer::frame_heartbeat("a", "b", 5, i64::MAX),
        Err(FramingError::Timestamp)
    );
}

#[test]
fn an_error_report_is_framed_exactly() {
    let mut context = TextMap::new();
    context.insert("file".to_string(), "test.txt".to_string());
    let framed = MessageSerializer::frame_error_message("io", "disk full", "w", Some(context), 6, 1000)
        .unwrap();
    assert_eq!(framed.subject, "swarm.errors");
    assert_eq!(framed.ttl_ms, Some(1_800_000));
    assert_eq!(framed.headers.len(), 3);
    assert_eq!(framed.headers.get("error-type"), Some("io"));
    assert_eq!(framed.headers.get("component-id"), Some("w"));
    let data: serde_json::Value = serde_json::from_slice(&framed.payload).unwrap();
    assert_eq!(data.as_object().unwrap().len(), 5);
    assert_eq!(data["error_type"], "io");
    assert_eq!(data["error_message"], "disk full");
    assert_eq!(data["component_id"], "w");
    assert_eq!(data["context"]["file"], "test.txt");
    assert_eq!(data["context"].as_object().unwrap().len(), 1);
    assert_eq!(data["timestamp"], "1970-01-01T00:00:01Z");
    let bare = MessageSerializer::frame_error_message("io", "disk full", "w", None, 6, 1000).unwrap();
    let data: serde_json::Value = serde_json::from_slice(&bare.payload).unwrap();
    assert!(data["context"].is_null());
    assert_eq!(
        MessageSerializer::frame_error_message("io", "x", "w", None, 6, i64::MIN),
        Err(FramingError::Timestamp)
    );
}

#[test]
fn the_manager_keeps_one_subscription_per_subject() {
    let mut manager = MessageSubscriptionManager::new();
    assert!(manager.get_subscription_subjects().is_empty());
    // Nobody listens: the message is dropped, which is no error.
    assert!(manager.send_message("a", message("a", vec![1])).is_ok());
    let mut first = manager.create_subscription("a");
    let mut other = manager.create_subscription("b");
    assert_eq!(manager.get_subscription_subjects(), vec!["a".to_string(), "b".to_string()]);
    manager.send_message("b", message("b", vec![2])).unwrap();
    assert_eq!(other.try_recv().unwrap().payload, vec![2]);
    assert!(first.try_recv().is_err());
    // A second subscription to a subject replaces the first.
    let mut second = manager.create_subscription("a");
    assert_eq!(manager.get_subscription_subjects(), vec!["a".to_string(), "b".to_string()]);
    manager.send_message("a", message("a", vec![3])).unwrap();
    assert_eq!(second.try_recv().unwrap().payload, vec![3]);
    assert_eq!(
        first.try_recv(),
        Err(tokio::sync::mpsc::error::TryRecvError::Disconnected)
    );
    // A subscriber that is gone gets its message back.
    drop(second);
    let lost = message("a", vec![4]);
    assert_eq!(manager.send_message("a", lost.clone()), Err(SendError { message: lost }));
    manager.remove_subscription("a");
    manager.remove_subscription("nothing");
    assert_eq!(manager.get_subscription_subjects(), vec!["b".to_string()]);
    assert!(manager.send_message("a", message("a", vec![5])).is_ok());
}

#[test]
fn a_subscription_hands_out_what_has_arrived() {
    let (sender, receiver) = tokio::sync::mpsc::unbounded_channel();
    let mut subscription = NatsMessageSubscription::new("s".to_string(), receiver);
    assert_eq!(subscription.subject_name(), "s");
    assert_eq!(subscription.next_message(), None);
    let sent = message("s", vec![1]);
    sender.send(sent.clone()).unwrap();
    assert_eq!(subscription.next_message(), Some(sent));
    assert_eq!(subscription.next_message(), None);
    drop(sender);
    assert_eq!(subscription.next_message(), None);
    subscription.unsubscribe();
}

#[test]
fn the_relay_counts_what_it_hands_on() {
    let (sender, mut receiver) = tokio::sync::mpsc::unbounded_channel();
    let mut stats = NatsStats::connected(5);
    assert!(stats.is_connected);
    assert_eq!(stats.last_connected, Some(5));
    let sent = message("s", vec![1]);
    assert_eq!(relay(&mut stats, &sender, Some(sent.clone())), Relay::Forwarded);
    assert_eq!(stats.messages_received, 1);
    assert_eq!(receiver.try_recv().unwrap(), sent);
    assert_eq!(relay(&mut stats, &sender, None), Relay::Skipped);
    assert_eq!(stats.error_count, 1);
    assert_eq!(stats.messages_received, 1);
    drop(receiver);
    assert_eq!(relay(&mut stats, &sender, Some(sent)), Relay::Stop);
    assert_eq!(stats.messages_received, 1);
    assert_eq!(stats.error_count, 1);
}

#[test]
fn the_counters_count() {
    let mut stats = NatsStats::default();
    stats.record_publish();
    stats.record_publish();
    stats.record_subscribe();
    stats.record_subscribe();
    stats.record_unsubscribe();
    stats.record_delivery(true);
    stats.record_delivery(false);
    assert_eq!(
        stats.broker_stats(),
        MessageBrokerStats {
            total_messages_sent: 2,
            total_messages_received: 1,
            active_subscriptions: 1,
            queue_depth: 0,
            error_count: 1,
        }
    );
    stats.record_unsubscribe();
    stats.record_unsubscribe();
    assert_eq!(stats.active_subscriptions, 0);
    stats.messages_sent = u64::MAX;
    stats.record_publish();
    assert_eq!(stats.messages_sent, u64::MAX);
    stats.record_close(9);
    assert!(!stats.is_connected);
    assert_eq!(stats.last_disconnected, Some(9));
}

#[test]
fn the_delay_before_a_new_subscription_doubles_up_to_half_a_minute() {
    let expected = [100, 200, 400, 800, 1600, 3200, 6400, 12_800, 25_600, 30_000, 30_000];
    for (attempt, delay) in expected.iter().enumerate() {
        assert_eq!(resubscribe_delay_ms(attempt as u32), *delay);
    }
    assert_eq!(resubscribe_delay_ms(1000), 30_000);
}

#[test]
fn three_failures_in_a_row_within_a_minute_disable_a_subscription() {
    let mut guard = RestartGuard::new();
    assert_eq!(guard.note_failure(0), RestartDecision::Restart);
    assert_eq!(guard.note_failure(30_000), RestartDecision::Restart);
    assert_eq!(guard.note_failure(60_000), RestartDecision::Disable);
    assert!(guard.disabled);
    assert_eq!(guard.note_failure(1_000_000), RestartDecision::Disable);

    // Failures that are spread out do not.
    let mut guard = RestartGuard::new();
    assert_eq!(guard.note_failure(0), RestartDecision::Restart);
    assert_eq!(guard.note_failure(30_000), RestartDecision::Restart);
    assert_eq!(guard.note_failure(60_001), RestartDecision::Restart);
    assert_eq!(guard.note_failure(90_001), RestartDecision::Restart);
    assert_eq!(guard.note_failure(90_002), RestartDecision::Disable);

    // A delivery in between breaks the row.
    let mut guard = RestartGuard::new();
    assert_eq!(guard.note_failure(0), RestartDecision::Restart);
    assert_eq!(guard.note_failure(1), RestartDecision::Restart);
    guard.note_delivery();
    assert_eq!(guard.note_failure(2), RestartDecision::Restart);
    assert_eq!(guard.note_failure(3), RestartDecision::Restart);
    assert_eq!(guard.note_failure(4), RestartDecision::Disable);
}

#[test]
fn errors_of_the_bus_read_as_sentences() {
    assert_eq!(
        MessageError::MessageTooLarge { size: 1_048_577, max_size: 1_048_576 }.to_string(),
        "Message too large: 1048577 bytes (max: 1048576 bytes)"
    );
    assert_eq!(
        MessageError::MessageTooLarge { size: 0, max_size: 10 }.to_string(),
        "Message too large: 0 bytes (max: 10 bytes)"
    );
    assert_eq!(MessageError::Serialization("x".to_string()).to_string(), "Serialization error: x");
    assert_eq!(MessageError::Nats("x".to_string()).to_string(), "NATS error: x");
    assert_eq!(MessageError::General("x".to_string()).to_string(), "General error: x");
    assert_eq!(
        MessageError::Connection { message: "refused".to_string() }.to_string(),
        "Connection error: refused"
    );
    assert_eq!(
        MessageError::Subscription { message: "gone".to_string() }.to_string(),
        "Subscription error: gone"
    );
    assert_eq!(MessageError::Timeout { message: "5s".to_string() }.to_string(), "Timeout error: 5s");
}

#[test]
fn a_map_of_texts_keeps_one_value_per_key() {
    let mut map = TextMap::new();
    assert!(map.is_empty());
    assert_eq!(map.insert("a".to_string(), "1".to_string()), None);
    assert_eq!(map.insert("b".to_string(), "2".to_string()), None);
    assert_eq!(map.insert("a".to_string(), "3".to_string()), Some("1".to_string()));
    assert_eq!(map.len(), 2);
    assert_eq!(map.get("a"), Some("3"));
    assert_eq!(map.get("b"), Some("2"));
    assert_eq!(map.get("c"), None);
    assert!(map.contains_key("b"));
    assert!(!map.contains_key(""));
    assert_eq!(map.key_at(0), "a");
    assert_eq!(map.value_at(0), "3");
    assert_eq!(map.key_at(1), "b");
    assert_eq!(map.clone(), map);
}

#[test]
fn a_custom_kind_is_written_with_its_name_and_version_in_quotes() {
    let kind = TaskType::Custom { name: "ec\"ho".to_string(), version: "1".to_string() };
    assert_eq!(kind.header_value(), "Custom { name: \"ec\\\"ho\", version: \"1\" }");
    assert_eq!(kind.to_string(), "Custom(ec\"ho, 1)");
    let mut task = pdf_task();
    task.task_type = kind;
    let framed = MessageSerializer::frame_task(&task, vec![1], 2, 3);
    assert_eq!(
        framed.headers.get("task-type"),
        Some("Custom { name: \"ec\\\"ho\", version: \"1\" }")
    );
}

#[test]
fn a_message_expires_when_its_time_to_live_has_passed() {
    let mut letter = message("a.b", vec![1]);
    letter.timestamp = 1_000;
    letter.ttl_ms = Some(500);
    assert!(!letter.is_expired(1_000));
    assert!(!letter.is_expired(1_500));
    assert!(letter.is_expired(1_501));
    assert!(!letter.is_expired(0));
    letter.ttl_ms = None;
    assert!(!letter.is_expired(i64::MAX));
    letter.ttl_ms = Some(u64::MAX);
    letter.timestamp = i64::MIN;
    assert!(!letter.is_expired(i64::MAX));
}

#[test]
fn what_a_queue_gives_is_handed_on_as_it_is() {
    let letter = message("a.b", vec![1, 2]);
    assert_eq!(sent_outcome(Ok(())), Ok(()));
    assert_eq!(sent_outcome(Err(letter.clone())), Err(SendError { message: letter.clone() }));
    assert_eq!(received_message(Ok(letter.clone())), Some(letter));
    assert_eq!(received_message(Err(ReceiveFailure::Empty)), None);
    assert_eq!(received_message(Err(ReceiveFailure::Disconnected)), None);
}

#[test]
fn a_message_for_a_subscriber_that_is_gone_comes_back() {
    let mut manager = MessageSubscriptionManager::new();
    assert_eq!(manager.get_subscription_subjects(), Vec::<String>::new());
    let letter = message("a.b", vec![7]);
    // Nobody has subscribed: the message is dropped, which is no error.
    assert_eq!(manager.send_message("a.b", letter.clone()), Ok(()));

    let mut receiver = manager.create_subscription("a.b");
    assert_eq!(manager.send_message("a.b", letter.clone()), Ok(()));
    assert_eq!(receiver.try_recv().unwrap(), letter);

    drop(receiver);
    assert_eq!(manager.send_message("a.b", letter.clone()), Err(SendError { message: letter }));
}

#[test]
fn a_subscription_gives_what_has_arrived_and_nothing_else() {
    let (sender, receiver) = tokio::sync::mpsc::unbounded_channel();
    let mut subscription = NatsMessageSubscription::new("a.b".to_string(), receiver);
    assert_eq!(subscription.subject_name(), "a.b");
    assert_eq!(subscription.next_message(), None);
    let first = message("a.b", vec![1]);
    let second = message("a.b", vec![2]);
    sender.send(first.clone()).unwrap();
    sender.send(second.clone()).unwrap();
    assert_eq!(subscription.next_message(), Some(first));
    drop(sender);
    assert_eq!(subscription.next_message(), Some(second));
    assert_eq!(subscription.next_message(), None);
    assert_eq!(subscription.subject_name(), "a.b");
}

#[test]
fn what_came_of_a_hand_off_is_counted() {
    let mut stats = NatsStats::connected(5);
    assert_eq!(relayed(&mut stats, Ok(())), Relay::Forwarded);
    assert_eq!(stats.messages_received, 1);
    assert_eq!(stats.error_count, 0);
    let before = stats;
    assert_eq!(relayed(&mut stats, Err(message("a.b", vec![1]))), Relay::Stop);
    assert_eq!(stats, before);

    // Through the queue itself: taken while somebody listens, stopped when nobody does.
    let (sender, receiver) = tokio::sync::mpsc::unbounded_channel();
    let letter = message("a.b", vec![2]);
    assert_eq!(relay(&mut stats, &sender, Some(letter.clone())), Relay::Forwarded);
    assert_eq!(stats.messages_received, 2);
    assert_eq!(relay(&mut stats, &sender, None), Relay::Skipped);
    assert_eq!(stats.error_count, 1);
    drop(receiver);
    assert_eq!(relay(&mut stats, &sender, Some(letter)), Relay::Stop);
    assert_eq!(stats.messages_received, 2);
    assert_eq!(stats.error_count, 1);
}

#[test]
fn maps_are_equal_whatever_the_order_of_their_entries() {
    let mut first = TextMap::new();
    first.insert("a".to_string(), "1".to_string());
    first.insert("b".to_string(), "2".to_string());
    let mut second = TextMap::new();
    second.insert("b".to_string(), "2".to_string());
    second.insert("a".to_string(), "1".to_string());
    assert_eq!(first, second);
    assert_eq!(second, first);
    assert_eq!(first, first.clone());

    let mut other = second.clone();
    other.insert("a".to_string(), "3".to_string());
    assert_ne!(first, other);
    let mut more = second.clone();
    more.insert("c".to_string(), "1".to_string());
    assert_ne!(first, more);
    assert_ne!(more, first);
    assert_ne!(first, TextMap::new());
    assert_eq!(TextMap::new(), TextMap::new());

    // What holds a map is equal with it.
    let mut one = message("a.b", vec![1]);
    let mut two = one.clone();
    one.headers = first;
    two.headers = second;
    assert_eq!(one, two);
}
