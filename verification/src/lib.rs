//! Coordination core of a distributed worker swarm: a capability-based
//! scheduler, a worker registry with its lifecycle rules, and the framing and
//! validation of the messages that connect them.

pub mod bus;
pub mod channel;
pub mod chars;
pub mod clock;
pub mod coordinator;
pub mod document;
pub mod document_processor;
pub mod document_reader;
pub mod document_worker;
pub mod documents;
pub mod error;
pub mod file_discovery;
pub mod ident;
pub mod invariants;
pub mod json;
pub mod laws;
pub mod memory_bus;
pub mod message;
pub mod patterns;
pub mod queue;
pub mod registry;
pub mod routing;
pub mod rules;
pub mod scheduler;
pub mod serialization;
pub mod state;
pub mod swarm_worker;
pub mod tally;
pub mod task;
pub mod text;
pub mod textmap;
pub mod traits;
pub mod transitions;
pub mod types;
pub mod worker;
pub mod worker_manager;

pub use bus::{
    MessageBrokerStats, MessageError, MessageSubscriptionManager, NatsConfig,
    NatsMessageSubscription, NatsStats,
};
pub use coordinator::{
    Assignment, Cancellation, CoordinatorStats, Delivery, Ingestion, SwarmCoordinator,
};
pub use document::{Document, DocumentContent, DocumentProcessingOptions};
pub use document_processor::SwarmDocumentProcessor;
pub use document_reader::{
    DocumentReader, DocumentReaderConfig, DocumentReaderStats, ProcessingTask,
};
pub use document_worker::DocumentWorker;
pub use documents::{
    detect_document_type_from_path, estimate_processing_time, get_mime_type, validate_document,
    DocumentError, DocumentProcessingConfig,
};
pub use error::SwarmError;
pub use file_discovery::{FileDiscoveryConfig, FileDiscoveryService, FileDiscoveryStats, FileInfo};
pub use memory_bus::MemoryBus;
pub use message::{Message, MessageValidator, ValidationError};
pub use registry::{InboxMessage, RegisterError, WorkerRecord, WorkerRegistry};
pub use routing::{
    DocumentSubjects, MessageRouter, MessageRoutingConfig, TaskSubjects, WorkerSubjects,
};
pub use scheduler::Score;
pub use serialization::{FramingError, MessageSerializer};
pub use state::{FailureKind, InFlightEntry, TaskOutcome};
pub use task::{
    ResultKind, Task, TaskPayload, TaskRequirements, TaskResult, TaskResultData, TaskType,
    TextAnalysisOptions,
};
pub use textmap::TextMap;
pub use traits::{DocumentProcessor, TaskProcessor, Worker};
pub use transitions::SubmitError;
pub use types::{
    DocumentId, DocumentProcessingType, DocumentType, MessageId, TaskId, TaskPriority, TaskStatus,
    TextAnalysisType, Timestamp, VectorIndexType, WorkerId,
};
pub use worker::{
    PerformanceProfile, WorkerCapability, WorkerConfig, WorkerHealth, WorkerStatus, WorkerType,
};
pub use worker_manager::{WorkerInstance, WorkerManager, WorkerManagerStats, WorkerStartupConfig};
