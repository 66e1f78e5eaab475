//! Framing: how documents, tasks, results and signs of life are wrapped into
//! messages.
//!
//! A message gets a fresh identifier and the time of the clock. Each kind of
//! message has its subject, its time to live and the headers by which those
//! who route it can tell what it holds without opening the payload.

use crate::clock::{now_millis, rfc3339, timestamp_text};
use crate::document::Document;
use crate::ident::{fresh_id, id_text, id_to_text};
use crate::json::{encode_object, field_views, json_object, JsonField, JsonValue, JsonValueView};
use crate::message::{Message, MessageView};
use crate::task::{Task, TaskResult};
use crate::textmap::{lemma_absent, TextMap};
use crate::types::{MessageId, Timestamp, WorkerId};
use vstd::prelude::*;

verus! {

/// The headers of a message of the given content type with further entries.
pub open spec fn headers_of(entries: Seq<(Seq<char>, Seq<char>)>) -> Seq<(Seq<char>, Seq<char>)> {
    seq![("content-type"@, "application/json"@)] + entries
}

/// The message that announces a document.
pub open spec fn document_message(
    document: crate::document::DocumentView,
    payload: Seq<u8>,
    id: MessageId,
    timestamp: Timestamp,
) -> MessageView {
    MessageView {
        id,
        subject: "swarm.documents.incoming"@,
        payload,
        headers: headers_of(
            seq![
                ("document-type"@, document.document_type.name()),
                ("document-id"@, id_text(document.id)),
            ],
        ),
        timestamp,
        ttl_ms: Some(300_000),
    }
}

/// The message that carries a task to the workers.
pub open spec fn task_message(
    task: crate::task::TaskView,
    payload: Seq<u8>,
    id: MessageId,
    timestamp: Timestamp,
) -> MessageView {
    MessageView {
        id,
        subject: "swarm.tasks.assignments"@,
        payload,
        headers: headers_of(
            seq![
                ("task-type"@, task.task_type.header_text()),
                ("task-id"@, id_text(task.id)),
                ("priority"@, task.priority.name()),
            ],
        ),
        timestamp,
        ttl_ms: Some(600_000),
    }
}

/// The message that carries a result to the coordinator.
pub open spec fn task_result_message(
    result: crate::task::TaskResultView,
    payload: Seq<u8>,
    id: MessageId,
    timestamp: Timestamp,
) -> MessageView {
    MessageView {
        id,
        subject: "swarm.tasks.results"@,
        payload,
        headers: headers_of(
            seq![("task-id"@, id_text(result.task_id)), ("status"@, result.status.name())],
        ),
        timestamp,
        ttl_ms: Some(900_000),
    }
}

/// The message that carries the status of a worker.
pub open spec fn worker_status_message(
    worker_id: WorkerId,
    payload: Seq<u8>,
    id: MessageId,
    timestamp: Timestamp,
) -> MessageView {
    MessageView {
        id,
        subject: "swarm.workers.status"@,
        payload,
        headers: headers_of(seq![("worker-id"@, id_text(worker_id))]),
        timestamp,
        ttl_ms: Some(60_000),
    }
}

/// The fields of the payload of a heartbeat.
pub open spec fn heartbeat_fields(
    component_id: Seq<char>,
    component_type: Seq<char>,
    time: Seq<char>,
) -> Seq<(Seq<char>, JsonValueView)> {
    seq![
        ("component_id"@, JsonValueView::Text(component_id)),
        ("component_type"@, JsonValueView::Text(component_type)),
        ("timestamp"@, JsonValueView::Text(time)),
        ("status"@, JsonValueView::Text("alive"@)),
    ]
}

/// The message by which a component says that it is alive.
pub open spec fn heartbeat_message(
    component_id: Seq<char>,
    component_type: Seq<char>,
    payload: Seq<u8>,
    id: MessageId,
    timestamp: Timestamp,
) -> MessageView {
    MessageView {
        id,
        subject: "swarm.heartbeat"@,
        payload,
        headers: headers_of(
            seq![("component-id"@, component_id), ("component-type"@, component_type)],
        ),
        timestamp,
        ttl_ms: Some(30_000),
    }
}

/// The fields of the payload of an error report.
pub open spec fn error_fields(
    error_type: Seq<char>,
    error_message: Seq<char>,
    component_id: Seq<char>,
    context: Option<Seq<(Seq<char>, Seq<char>)>>,
    time: Seq<char>,
) -> Seq<(Seq<char>, JsonValueView)> {
    seq![
        ("error_type"@, JsonValueView::Text(error_type)),
        ("error_message"@, JsonValueView::Text(error_message)),
        ("component_id"@, JsonValueView::Text(component_id)),
        (
            "context"@,
            match context {
                Some(entries) => JsonValueView::Object(entries),
                None => JsonValueView::Null,
            },
        ),
        ("timestamp"@, JsonValueView::Text(time)),
    ]
}

/// The message by which a component reports an error.
pub open spec fn error_message_of(
    error_type: Seq<char>,
    component_id: Seq<char>,
    payload: Seq<u8>,
    id: MessageId,
    timestamp: Timestamp,
) -> MessageView {
    MessageView {
        id,
        subject: "swarm.errors"@,
        payload,
        headers: headers_of(seq![("error-type"@, error_type), ("component-id"@, component_id)]),
        timestamp,
        ttl_ms: Some(1_800_000),
    }
}

/// The mathematical value of an optional map.
pub open spec fn optional_entries(map: Option<TextMap>) -> Option<Seq<(Seq<char>, Seq<char>)>> {
    match map {
        Some(m) => Some(m@),
        None => None,
    }
}

/// Why a message could not be framed.
#[derive(Debug, Clone, Copy, PartialEq, Eq, Structural)]
pub enum FramingError {
    /// The time of the message cannot be written as a date.
    Timestamp,
    /// The payload could not be written.
    Payload,
}

/// The outcome of framing a heartbeat at a given time.
pub open spec fn framed_heartbeat(
    component_id: Seq<char>,
    component_type: Seq<char>,
    id: MessageId,
    timestamp: Timestamp,
) -> Result<MessageView, FramingError> {
    match rfc3339(timestamp, true) {
        None => Err(FramingError::Timestamp),
        Some(time) => match json_object(heartbeat_fields(component_id, component_type, time)) {
            None => Err(FramingError::Payload),
            Some(payload) => Ok(
                heartbeat_message(component_id, component_type, payload, id, timestamp),
            ),
        },
    }
}

/// The outcome of framing an error report at a given time.
pub open spec fn framed_error(
    error_type: Seq<char>,
    error_message: Seq<char>,
    component_id: Seq<char>,
    context: Option<Seq<(Seq<char>, Seq<char>)>>,
    id: MessageId,
    timestamp: Timestamp,
) -> Result<MessageView, FramingError> {
    match rfc3339(timestamp, true) {
        None => Err(FramingError::Timestamp),
        Some(time) => match json_object(
            error_fields(error_type, error_message, component_id, context, time),
        ) {
            None => Err(FramingError::Payload),
            Some(payload) => Ok(error_message_of(error_type, component_id, payload, id, timestamp)),
        },
    }
}

/// The view of a framing outcome.
pub open spec fn framing_view(outcome: Result<Message, FramingError>) -> Result<
    MessageView,
    FramingError,
> {
    match outcome {
        Ok(message) => Ok(message@),
        Err(error) => Err(error),
    }
}

/// Headers that begin with the content type.
fn json_headers() -> (headers: TextMap)
    ensures
        headers@ == headers_of(Seq::empty()),
{
    let mut headers = TextMap::new();
    headers.insert(String::from_str("content-type"), String::from_str("application/json"));
    assert(headers@ =~= headers_of(Seq::empty()));
    headers
}

/// Framing of the messages of the swarm.
pub struct MessageSerializer;

impl MessageSerializer {
    /// Frames the announcement of a document around its encoded form, with
    /// the given identifier and time.
    pub fn frame_document(document: &Document, payload: Vec<u8>, id: MessageId, timestamp: Timestamp) -> (message:
        Message)
        ensures
            message@ == document_message(document@, payload@, id, timestamp),
    {
        let mut headers = json_headers();
        proof {
            reveal_strlit("content-type");
            reveal_strlit("document-type");
            reveal_strlit("document-id");
            assert(headers@[0].0 == "content-type"@);
            lemma_absent(headers@, "document-type"@);
        }
        headers.push("document-type", String::from_str(document.document_type.as_str()));
        proof {
            assert(headers@[0].0 == "content-type"@ && headers@[1].0 == "document-type"@);
            assert(headers@[0].0.len() == 12 && headers@[1].0.len() == 13);
            assert("document-id"@.len() == 11);
            lemma_absent(headers@, "document-id"@);
        }
        headers.push("document-id", id_to_text(document.id));
        let message = Message {
            id,
            subject: String::from_str("swarm.documents.incoming"),
            payload,
            headers,
            timestamp,
            ttl_ms: Some(300_000),
        };
        assert(message@.headers =~= document_message(document@, payload@, id, timestamp).headers);
        message
    }

    /// Frames the announcement of a document around its encoded form, with a
    /// fresh identifier and the time of the clock.
    pub fn serialize_document(document: &Document, payload: Vec<u8>) -> (message: Message)
        ensures
            message@ == document_message(document@, payload@, message.id, message.timestamp),
            message.id != 0,
            message.timestamp >= 0,
    {
        MessageSerializer::frame_document(document, payload, fresh_id(), now_millis())
    }

    /// Frames a task around its encoded form, with the given identifier and
    /// time.
    pub fn frame_task(task: &Task, payload: Vec<u8>, id: MessageId, timestamp: Timestamp) -> (message:
        Message)
        ensures
            message@ == task_message(task@, payload@, id, timestamp),
    {
        let mut headers = json_headers();
        proof {
            reveal_strlit("content-type");
            reveal_strlit("task-type");
            reveal_strlit("task-id");
            reveal_strlit("priority");
            assert(headers@[0].0 == "content-type"@);
            lemma_absent(headers@, "task-type"@);
        }
        headers.push("task-type", task.task_type.header_value());
        proof {
            assert(headers@[0].0 == "content-type"@ && headers@[1].0 == "task-type"@);
            assert(headers@[0].0.len() == 12 && headers@[1].0.len() == 9);
            assert("task-id"@.len() == 7);
            lemma_absent(headers@, "task-id"@);
        }
        headers.push("task-id", id_to_text(task.id));
        proof {
            assert(headers@[0].0 == "content-type"@ && headers@[1].0 == "task-type"@
                && headers@[2].0 == "task-id"@);
            assert(headers@[0].0.len() == 12 && headers@[1].0.len() == 9 && headers@[2].0.len()
                == 7);
            assert("priority"@.len() == 8);
            lemma_absent(headers@, "priority"@);
        }
        headers.push("priority", task.priority.to_string());
        let message = Message {
            id,
            subject: String::from_str("swarm.tasks.assignments"),
            payload,
            headers,
            timestamp,
            ttl_ms: Some(600_000),
        };
        assert(message@.headers =~= task_message(task@, payload@, id, timestamp).headers);
        message
    }

    /// Frames a task around its encoded form, with a fresh identifier and the
    /// time of the clock.
    pub fn serialize_task(task: &Task, payload: Vec<u8>) -> (message: Message)
        ensures
            message@ == task_message(task@, payload@, message.id, message.timestamp),
            message.id != 0,
            message.timestamp >= 0,
    {
        MessageSerializer::frame_task(task, payload, fresh_id(), now_millis())
    }

    /// Frames a result around its encoded form, with the given identifier and
    /// time.
    pub fn frame_task_result(result: &TaskResult, payload: Vec<u8>, id: MessageId, timestamp: Timestamp) -> (message:
        Message)
        ensures
            message@ == task_result_message(result@, payload@, id, timestamp),
    {
        let mut headers = json_headers();
        proof {
            reveal_strlit("content-type");
            reveal_strlit("task-id");
            reveal_strlit("status");
            assert(headers@[0].0 == "content-type"@);
            lemma_absent(headers@, "task-id"@);
        }
        headers.push("task-id", id_to_text(result.task_id));
        proof {
            assert(headers@[0].0 == "content-type"@ && headers@[1].0 == "task-id"@);
            assert(headers@[0].0.len() == 12 && headers@[1].0.len() == 7);
            assert("status"@.len() == 6);
            lemma_absent(headers@, "status"@);
        }
        headers.push("status", result.status.to_string());
        let message = Message {
            id,
            subject: String::from_str("swarm.tasks.results"),
            payload,
            headers,
            timestamp,
            ttl_ms: Some(900_000),
        };
        assert(message@.headers =~= task_result_message(result@, payload@, id, timestamp).headers);
        message
    }

    /// Frames a result around its encoded form, with a fresh identifier and
    /// the time of the clock.
    pub fn serialize_task_result(result: &TaskResult, payload: Vec<u8>) -> (message: Message)
        ensures
            message@ == task_result_message(result@, payload@, message.id, message.timestamp),
            message.id != 0,
            message.timestamp >= 0,
    {
        MessageSerializer::frame_task_result(result, payload, fresh_id(), now_millis())
    }

    /// Frames the status of a worker around its encoded form, with the given
    /// identifier and time.
    pub fn frame_worker_status(worker_id: WorkerId, payload: Vec<u8>, id: MessageId, timestamp: Timestamp) -> (message:
        Message)
        ensures
            message@ == worker_status_message(worker_id, payload@, id, timestamp),
    {
        let mut headers = json_headers();
        proof {
            reveal_strlit("content-type");
            reveal_strlit("worker-id");
            assert(headers@[0].0 == "content-type"@);
            lemma_absent(headers@, "worker-id"@);
        }
        headers.push("worker-id", id_to_text(worker_id));
        let message = Message {
            id,
            subject: String::from_str("swarm.workers.status"),
            payload,
            headers,
            timestamp,
            ttl_ms: Some(60_000),
        };
        assert(message@.headers =~= worker_status_message(
            worker_id,
            payload@,
            id,
            timestamp,
        ).headers);
        message
    }

    /// Frames the status of a worker around its encoded form, with a fresh
    /// identifier and the time of the clock.
    pub fn serialize_worker_status(worker_id: WorkerId, payload: Vec<u8>) -> (message: Message)
        ensures
            message@ == worker_status_message(worker_id, payload@, message.id, message.timestamp),
            message.id != 0,
            message.timestamp >= 0,
    {
        MessageSerializer::frame_worker_status(worker_id, payload, fresh_id(), now_millis())
    }

    /// Frames a heartbeat with the given identifier and time. The payload is
    /// a JSON object with the identifier and type of the component, the time
    /// as a date, and the status `alive`.
    pub fn frame_heartbeat(component_id: &str, component_type: &str, id: MessageId, timestamp: Timestamp) -> (outcome:
        Result<Message, FramingError>)
        ensures
            framing_view(outcome) == framed_heartbeat(
                component_id@,
                component_type@,
                id,
                timestamp,
            ),
    {
        let time = match timestamp_text(timestamp, true) {
            Some(text) => text,
            None => {
                return Err(FramingError::Timestamp);
            },
        };
        let mut fields: Vec<JsonField> = Vec::new();
        fields.push(
            JsonField {
                name: String::from_str("component_id"),
                value: JsonValue::Text(String::from_str(component_id)),
            },
        );
        fields.push(
            JsonField {
                name: String::from_str("component_type"),
                value: JsonValue::Text(String::from_str(component_type)),
            },
        );
        fields.push(
            JsonField { name: String::from_str("timestamp"), value: JsonValue::Text(time) },
        );
        fields.push(
            JsonField {
                name: String::from_str("status"),
                value: JsonValue::Text(String::from_str("alive")),
            },
        );
        assert(field_views(fields@) =~= heartbeat_fields(component_id@, component_type@, time@));
        let payload = match encode_object(&fields) {
            Ok(bytes) => bytes,
            Err(_) => {
                return Err(FramingError::Payload);
            },
        };
        let mut headers = json_headers();
        proof {
            reveal_strlit("content-type");
            reveal_strlit("component-id");
            reveal_strlit("component-type");
            assert(headers@[0].0 == "content-type"@);
            assert("component-id"@[2] == 'm' && "content-type"@[2] == 'n');
            lemma_absent(headers@, "component-id"@);
        }
        headers.push("component-id", String::from_str(component_id));
        proof {
            assert(headers@[0].0 == "content-type"@ && headers@[1].0 == "component-id"@);
            assert(headers@[0].0.len() == 12 && headers@[1].0.len() == 12);
            assert("component-type"@.len() == 14);
            lemma_absent(headers@, "component-type"@);
        }
        headers.push("component-type", String::from_str(component_type));
        let message = Message {
            id,
            subject: String::from_str("swarm.heartbeat"),
            payload,
            headers,
            timestamp,
            ttl_ms: Some(30_000),
        };
        assert(message@.headers =~= heartbeat_message(
            component_id@,
            component_type@,
            payload@,
            id,
            timestamp,
        ).headers);
        Ok(message)
    }

    /// Frames a heartbeat with a fresh identifier and the time of the clock.
    pub fn create_heartbeat(component_id: &str, component_type: &str) -> (outcome: Result<
        Message,
        FramingError,
    >)
        ensures
            exists|id: MessageId, timestamp: Timestamp|
                id != 0 && timestamp >= 0 && framing_view(outcome) == #[trigger] framed_heartbeat(
                    component_id@,
                    component_type@,
                    id,
                    timestamp,
                ),
    {
        MessageSerializer::frame_heartbeat(component_id, component_type, fresh_id(), now_millis())
    }

    /// Frames an error report with the given identifier and time. The payload
    /// is a JSON object with the type and text of the error, the identifier
    /// of the component, the context as an object, or `null` where there is
    /// none, and the time as a date.
    pub fn frame_error_message(
        error_type: &str,
        error_message: &str,
        component_id: &str,
        context: Option<TextMap>,
        id: MessageId,
        timestamp: Timestamp,
    ) -> (outcome: Result<Message, FramingError>)
        ensures
            framing_view(outcome) == framed_error(
                error_type@,
                error_message@,
                component_id@,
                optional_entries(context),
                id,
                timestamp,
            ),
    {
        let time = match timestamp_text(timestamp, true) {
            Some(text) => text,
            None => {
                return Err(FramingError::Timestamp);
            },
        };
        let mut fields: Vec<JsonField> = Vec::new();
        fields.push(
            JsonField {
                name: String::from_str("error_type"),
                value: JsonValue::Text(String::from_str(error_type)),
            },
        );
        fields.push(
            JsonField {
                name: String::from_str("error_message"),
                value: JsonValue::Text(String::from_str(error_message)),
            },
        );
        fields.push(
            JsonField {
                name: String::from_str("component_id"),
                value: JsonValue::Text(String::from_str(component_id)),
            },
        );
        fields.push(
            JsonField {
                name: String::from_str("context"),
                value: match context {
                    Some(entries) => JsonValue::Object(entries),
                    None => JsonValue::Null,
                },
            },
        );
        fields.push(
            JsonField { name: String::from_str("timestamp"), value: JsonValue::Text(time) },
        );
        assert(field_views(fields@) =~= error_fields(
            error_type@,
            error_message@,
            component_id@,
            optional_entries(context),
            time@,
        ));
        let payload = match encode_object(&fields) {
            Ok(bytes) => bytes,
            Err(_) => {
                return Err(FramingError::Payload);
            },
        };
        let mut headers = json_headers();
        proof {
            reveal_strlit("content-type");
            reveal_strlit("error-type");
            reveal_strlit("component-id");
            assert(headers@[0].0 == "content-type"@);
            lemma_absent(headers@, "error-type"@);
        }
        headers.push("error-type", String::from_str(error_type));
        proof {
            assert(headers@[0].0 == "content-type"@ && headers@[1].0 == "error-type"@);
            assert(headers@[1].0.len() == 10 && "component-id"@.len() == 12);
            assert("component-id"@[2] == 'm' && "content-type"@[2] == 'n');
            lemma_absent(headers@, "component-id"@);
        }
        headers.push("component-id", String::from_str(component_id));
        let message = Message {
            id,
            subject: String::from_str("swarm.errors"),
            payload,
            headers,
            timestamp,
            ttl_ms: Some(1_800_000),
        };
        assert(message@.headers =~= error_message_of(
            error_type@,
            component_id@,
            payload@,
            id,
            timestamp,
        ).headers);
        Ok(message)
    }

    /// Frames an error report with a fresh identifier and the time of the
    /// clock.
    pub fn create_error_message(
        error_type: &str,
        error_message: &str,
        component_id: &str,
        context: Option<TextMap>,
    ) -> (outcome: Result<Message, FramingError>)
        ensures
            exists|id: MessageId, timestamp: Timestamp|
                id != 0 && timestamp >= 0 && framing_view(outcome) == #[trigger] framed_error(
                    error_type@,
                    error_message@,
                    component_id@,
                    optional_entries(context),
                    id,
                    timestamp,
                ),
    {
        MessageSerializer::frame_error_message(
            error_type,
            error_message,
            component_id,
            context,
            fresh_id(),
            now_millis(),
        )
    }
}

} // verus!
